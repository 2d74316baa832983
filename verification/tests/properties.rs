use snake_core::common::Position;
use snake_core::snake::Direction;
use snake_core::snake::Snake;
use snake_core::world::World;
use snake_core::world::WorldState;

#[test]
fn reversal_rejected_others_accepted() {
    let mut world = World::new(10, 10, 3);
    assert!(!world.set_direction(Direction::Left));
    assert_eq!(world.snake_direction, Direction::Right);
    assert!(world.set_direction(Direction::Right));
    assert_eq!(world.snake_direction, Direction::Right);
    assert!(world.set_direction(Direction::Up));
    assert_eq!(world.snake_direction, Direction::Up);
    assert!(!world.set_direction(Direction::Down));
    assert_eq!(world.snake_direction, Direction::Up);
    assert!(world.set_direction(Direction::Left));
    assert_eq!(world.snake_direction, Direction::Left);
}

#[test]
fn growth_keeps_food_off_the_body() {
    let mut world = World::new(10, 10, 3);
    let head = world.snake.get_head();
    world.food = Some(Position::new(head.x + 1, head.y));
    let state = world.make_step();
    assert_eq!(state, WorldState::Running);
    assert_eq!(world.snake.body.len(), 4);
    let food = world.food.unwrap();
    assert!(food.x < 10 && food.y < 10);
    for p in world.get_snake_positions() {
        assert_ne!(p, food);
    }
}

#[test]
fn closed_loop_terminates_the_game() {
    let mut world = World::new(10, 10, 5);
    world.food = Some(Position::new(0, 0));
    assert!(world.set_direction(Direction::Down));
    assert_eq!(world.make_step(), WorldState::Running);
    assert!(world.set_direction(Direction::Left));
    assert_eq!(world.make_step(), WorldState::Running);
    assert!(world.set_direction(Direction::Up));
    assert_eq!(world.make_step(), WorldState::Running);
    assert!(world.set_direction(Direction::Right));
    assert_eq!(world.make_step(), WorldState::GameOver);
}

#[test]
fn single_cell_board_has_no_food() {
    let world = World::new(1, 1, 1);
    assert_eq!(world.food, None);
    assert_eq!(world.snake.get_head(), Position::new(0, 0));
}

#[test]
fn end_to_end_single_step() {
    let mut world = World::new(10, 10, 3);
    assert_eq!(world.snake.get_head(), Position::new(5, 5));
    assert_eq!(world.snake_direction, Direction::Right);
    world.food = Some(Position::new(0, 0));
    let state = world.make_step();
    assert_eq!(state, WorldState::Running);
    assert_eq!(world.snake.get_head(), Position::new(6, 5));
    assert_eq!(world.snake.body.len(), 3);
    assert_eq!(world.food, Some(Position::new(0, 0)));
}

#[test]
fn food_stays_in_bounds_and_off_the_snake() {
    let mut world = World::new(4, 4, 3);
    for _ in 0..10 {
        if world.food.is_none() {
            break;
        }
        world.make_step();
        let positions = world.get_snake_positions();
        assert!(positions.len() >= 1);
        if let Some(food) = world.food {
            assert!(food.x < 4 && food.y < 4);
            for p in positions {
                assert_ne!(p, food);
            }
        }
    }
}

#[test]
fn wrap_covers_all_four_edges() {
    let mut snake = Snake::new(0, 0, 1);
    snake.move_to(&Direction::Left, 7, 5);
    assert_eq!(snake.get_head(), Position::new(6, 0));
    snake.move_to(&Direction::Right, 7, 5);
    assert_eq!(snake.get_head(), Position::new(0, 0));
    snake.move_to(&Direction::Up, 7, 5);
    assert_eq!(snake.get_head(), Position::new(0, 4));
    snake.move_to(&Direction::Down, 7, 5);
    assert_eq!(snake.get_head(), Position::new(0, 0));
}

#[test]
fn queries_report_the_state() {
    let world = World::new(9, 7, 2);
    let positions = world.get_snake_positions();
    assert_eq!(positions.len(), 2);
    assert_eq!(positions[0], Position::new(4, 3));
    assert_eq!(positions[1], Position::new(4, 3));
    assert_eq!(world.get_food_position(), world.food);
    let dump = world.get_debug_info();
    assert!(dump.len() > 0);
}
