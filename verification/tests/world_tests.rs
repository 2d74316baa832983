use snake_core::common::Position;
use snake_core::snake::Direction;
use snake_core::world::World;

#[test]
fn world_test_new() {
    let world = World::new(10, 10, 3);
    assert_eq!(world.width, 10);
    assert_eq!(world.height, 10);
    assert_eq!(world.snake.body.len(), 3);
    assert!(world.food.is_some());
}

#[test]
fn test_generate_food_position() {
    let world = World::new(10, 10, 3);
    let snake_head = world.snake.get_head();
    let food = world.food.unwrap();
    assert_ne!(snake_head, food);
}

#[test]
fn test_generate_food_position_when_snake_is_on_the_whole_world() {
    let world = World::new(1, 1, 1);
    let snake_head = world.snake.get_head();
    let food = world.food;
    assert_ne!(Some(snake_head), food);
}

#[test]
fn test_generate_food_position_when_snake_is_on_the_whole_world_and_food_is_none() {
    let mut world = World::new(1, 1, 1);
    world.food = None;
    world.generate_food_position();
    assert_eq!(world.food, None);
}

#[test]
fn test_set_direction() {
    let mut world = World::new(10, 10, 3);
    world.set_direction(Direction::Down);
    assert_eq!(world.snake_direction, Direction::Down);
}

#[test]
fn test_make_step() {
    let mut world = World::new(10, 10, 3);
    let snake_head = world.snake.get_head();
    let food = world.food.unwrap();
    world.set_direction(Direction::Down);
    world.make_step();
    assert_ne!(snake_head, world.snake.get_head());
    assert_eq!(world.food, Some(food));
}

#[test]
fn test_make_step_when_snake_eats() {
    let mut world = World::new(10, 10, 3);
    let snake_head = world.snake.get_head();
    let food = world.food.unwrap();
    world.food = Some(Position::new(snake_head.x, snake_head.y + 1));
    world.snake_direction = Direction::Down;
    world.make_step();
    assert_eq!(world.snake.body.len(), 4);
    assert_ne!(snake_head, world.snake.get_head());
    assert_ne!(Some(food), world.food);
}
