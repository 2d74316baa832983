use vstd::prelude::*;

use crate::common::Position;
use crate::common::in_bounds;
use crate::snake::Direction;
use crate::snake::Snake;
use crate::snake::advanced;
use crate::snake::occupies;
use crate::snake::self_intersects;
use crate::snake::wrapped_position;

verus! {

/// The outcome of one step: the game continues, or the snake ran into
/// itself and the session is over.
#[derive(Debug, Eq, PartialEq, Clone, Copy, Structural)]
pub enum WorldState {
    Running,
    GameOver,
}

/// The authoritative game state: the snake, its heading, the food cell
/// and the board bounds.
#[derive(Debug)]
pub struct World {
    pub snake: Snake,
    pub snake_direction: Direction,
    pub food: Option<Position>,
    pub width: u16,
    pub height: u16,
}

/// Whether the body occupies every cell of a `width` by `height` board.
/// A body longer than the board's cell count can do so even though its
/// length differs from that count, since a body may hold a cell twice.
pub open spec fn covers_board(body: Seq<Position>, width: u16, height: u16) -> bool {
    forall|p: Position| in_bounds(p, width, height) ==> #[trigger] occupies(body, p)
}

/// Whether `b` is the exact opposite of `a` (the one direction a moving
/// snake may not turn to, since it would reverse into its own neck).
pub open spec fn is_opposite(a: Direction, b: Direction) -> bool {
    match (a, b) {
        (Direction::Up, Direction::Down) => true,
        (Direction::Down, Direction::Up) => true,
        (Direction::Left, Direction::Right) => true,
        (Direction::Right, Direction::Left) => true,
        _ => false,
    }
}

impl World {
    /// Well-formedness of a world, preserved by every operation:
    /// the board is non-empty and small enough that its cell count fits
    /// in a `u16`; the snake has at least one cell, all on the board; and
    /// the food is either absent — only when no placement is possible,
    /// because the snake's length equals the board's cell count or its
    /// body covers every cell — or a board cell the snake does not
    /// occupy.
    pub open spec fn wf(self) -> bool {
        &&& self.width >= 1
        &&& self.height >= 1
        &&& self.width * self.height <= u16::MAX
        &&& self.snake.body@.len() >= 1
        &&& forall|i: int|
            0 <= i < self.snake.body@.len() ==> in_bounds(
                #[trigger] self.snake.body@[i],
                self.width,
                self.height,
            )
        &&& match self.food {
            Option::None => self.snake.body@.len() == self.width * self.height || covers_board(
                self.snake.body@,
                self.width,
                self.height,
            ),
            Option::Some(f) => in_bounds(f, self.width, self.height) && !occupies(
                self.snake.body@,
                f,
            ),
        }
    }

    /// Whether `new` is the exact opposite of the current heading.
    pub fn is_opposite_direction(&self, new: &Direction) -> (r: bool)
        ensures
            r == is_opposite(self.snake_direction, *new),
    {
        matches!(
            (&self.snake_direction, new),
            (Direction::Up, Direction::Down)
                | (Direction::Down, Direction::Up)
                | (Direction::Left, Direction::Right)
                | (Direction::Right, Direction::Left)
        )
    }

    /// Requests a change of heading. The request is rejected — `false`,
    /// nothing changes — exactly when `direction` is the opposite of the
    /// current heading; any other request (the same heading included) is
    /// accepted and stored.
    pub fn set_direction(&mut self, direction: Direction) -> (r: bool)
        requires
            old(self).wf(),
        ensures
            final(self).wf(),
            r == !is_opposite(old(self).snake_direction, direction),
            r ==> final(self).snake_direction == direction,
            !r ==> *final(self) == *old(self),
            final(self).snake == old(self).snake,
            final(self).food == old(self).food,
            final(self).width == old(self).width,
            final(self).height == old(self).height,
    {
        if !self.is_opposite_direction(&direction) {
            self.snake_direction = direction;
            return true;
        }

        false
    }

    /// The cell the head will move onto at the next step: one step from
    /// the current head in the current heading, wrapping at the board
    /// edges.
    pub open spec fn next_head(self) -> Position {
        wrapped_position(self.snake.body@[0], self.snake_direction, self.width, self.height)
    }

    /// Builds a world on a `width` by `height` board: a snake of
    /// `snake_size` cells stacked at the board's center, heading Right,
    /// and a first food cell. The food is absent exactly when no free
    /// cell exists: the snake's length equals the board's cell count,
    /// or the board has a single cell (which the snake holds).
    pub fn new(width: u16, height: u16, snake_size: u16) -> (w: Self)
        requires
            width >= 1,
            height >= 1,
            snake_size >= 1,
            width * height <= u16::MAX,
        ensures
            w.wf(),
            w.width == width,
            w.height == height,
            w.snake_direction == Direction::Right,
            w.snake.body@.len() == snake_size as int,
            forall|i: int|
                0 <= i < snake_size as int ==> w.snake.body@[i] == (Position {
                    x: (width / 2) as u16,
                    y: (height / 2) as u16,
                }),
            w.food.is_none() <==> (snake_size == width * height || (width == 1 && height == 1)),
    {
        let x: u16 = width / 2;
        let y: u16 = height / 2;
        let snake = Snake::new(x, y, snake_size);

        let mut result = Self {
            snake,
            snake_direction: Direction::Right,
            food: None,
            width,
            height,
        };
        proof {
            lemma_stacked_body_coverage(
                result.snake.body@,
                (Position { x: (width / 2) as u16, y: (height / 2) as u16 }),
                width,
                height,
            );
        }
        result.generate_food_position();
        result
    }

    /// Advances the game by one tick: the snake moves one cell in the
    /// current heading, wrapping at the board edges; if it lands on the
    /// food it grows by one cell and a fresh food cell is placed; the
    /// step reports `GameOver` exactly when the new head lies on the
    /// rest of the body, and `Running` otherwise.
    pub fn make_step(&mut self) -> (r: WorldState)
        requires
            old(self).wf(),
            old(self).food.is_some(),
        ensures
            final(self).wf(),
            final(self).width == old(self).width,
            final(self).height == old(self).height,
            final(self).snake_direction == old(self).snake_direction,
            final(self).snake.body@[0] == old(self).next_head(),
            old(self).food != Some(old(self).next_head()) ==> {
                &&& final(self).snake.body@ == advanced(
                    old(self).snake.body@,
                    old(self).next_head(),
                )
                &&& final(self).snake.body@.len() == old(self).snake.body@.len()
                &&& final(self).food == old(self).food
            },
            old(self).food == Some(old(self).next_head()) ==> {
                &&& final(self).snake.body@ == advanced(
                    old(self).snake.body@,
                    old(self).next_head(),
                ).push(advanced(old(self).snake.body@, old(self).next_head()).last())
                &&& final(self).snake.body@.len() == old(self).snake.body@.len() + 1
                &&& final(self).food != old(self).food
                &&& (final(self).food.is_none() <==> (old(self).snake.body@.len() + 1 == old(
                    self,
                ).width * old(self).height || covers_board(
                    final(self).snake.body@,
                    old(self).width,
                    old(self).height,
                )))
                &&& (match final(self).food {
                    Option::Some(f) => !occupies(final(self).snake.body@, f),
                    Option::None => true,
                })
            },
            r == (if self_intersects(final(self).snake.body@) {
                WorldState::GameOver
            } else {
                WorldState::Running
            }),
    {
        let dir = self.snake_direction;
        self.snake.move_to(&dir, self.width, self.height);
        let food_pos = self.food.unwrap();
        proof {
            lemma_occupies_after_advance(old(self).snake.body@, old(self).next_head(), food_pos);
        }
        if self.snake.intersects(food_pos) {
            self.snake.eat();
            self.generate_food_position();
        }

        proof {
            assert forall|i: int|
                0 <= i < self.snake.body@.len() implies in_bounds(
                #[trigger] self.snake.body@[i],
                self.width,
                self.height,
            ) by {
                let b1 = advanced(old(self).snake.body@, old(self).next_head());
                if 1 <= i < b1.len() {
                    assert(in_bounds(old(self).snake.body@[i - 1], self.width, self.height));
                }
                if i >= b1.len() {
                    assert(self.snake.body@[i] == b1.last());
                    if b1.len() > 1 {
                        assert(in_bounds(
                            old(self).snake.body@[b1.len() - 2],
                            self.width,
                            self.height,
                        ));
                    }
                }
            }
        }

        if self.snake.intersects_itself() {
            WorldState::GameOver
        } else {
            WorldState::Running
        }
    }

    /// Returns the food cell, if one is placed.
    pub fn get_food_position(&self) -> (r: Option<Position>)
        ensures
            r == self.food,
    {
        self.food
    }

    /// Returns the cells the snake occupies, head first.
    pub fn get_snake_positions(&self) -> (r: Vec<Position>)
        ensures
            r@ == self.snake.body@,
    {
        let mut result: Vec<Position> = Vec::new();
        let mut i: usize = 0;
        while i < self.snake.body.len()
            invariant
                i <= self.snake.body@.len(),
                result@ == self.snake.body@.subrange(0, i as int),
            decreases self.snake.body@.len() - i,
        {
            let p = self.snake.body[i];
            result.push(p);
            i += 1;
            proof {
                assert(result@ =~= self.snake.body@.subrange(0, i as int));
            }
        }
        proof {
            assert(result@ =~= self.snake.body@);
        }
        result
    }

    /// A human-readable dump of the body and the food cell, for
    /// diagnostics only; gameplay logic never reads it.
    ///
    /// Relies on std's `format!` over the derived `Debug` impls to
    /// render the state; nothing is assumed of the returned text.
    #[verifier::external_body]
    pub fn get_debug_info(&self) -> String {
        format!(
            "Snake positions: {:?},\nFood position: {:?}",
            self.snake.body, self.food
        )
    }

    /// Places the food. When the snake's length equals the board's cell
    /// count, or its body covers every cell, no placement is possible
    /// and the food becomes absent. Otherwise the food lands on a board
    /// cell the snake does not occupy: first by uniform rejection
    /// sampling, bounded by the board's cell count so that every call
    /// returns, and — should every sample hit the snake — by a sweep of
    /// the board that takes the first free cell.
    pub fn generate_food_position(&mut self)
        requires
            old(self).width >= 1,
            old(self).height >= 1,
            old(self).width * old(self).height <= u16::MAX,
        ensures
            final(self).snake == old(self).snake,
            final(self).snake_direction == old(self).snake_direction,
            final(self).width == old(self).width,
            final(self).height == old(self).height,
            final(self).food.is_none() <==> (old(self).snake.body@.len() == old(self).width * old(
                self,
            ).height || covers_board(old(self).snake.body@, old(self).width, old(self).height)),
            match final(self).food {
                Option::Some(f) => in_bounds(f, old(self).width, old(self).height) && !occupies(
                    old(self).snake.body@,
                    f,
                ),
                Option::None => true,
            },
    {
        if self.snake.body.len() == (self.width * self.height) as usize {
            self.food = None;
            return;
        }

        let total: u32 = (self.width as u32) * (self.height as u32);
        let mut tries: u32 = 0;
        while tries < total
            invariant
                self.snake == old(self).snake,
                self.snake_direction == old(self).snake_direction,
                self.width == old(self).width,
                self.height == old(self).height,
                self.width >= 1,
                self.height >= 1,
                self.snake.body@.len() != self.width * self.height,
            decreases total - tries,
        {
            let x: u16 = random_u16() % self.width;
            let y: u16 = random_u16() % self.height;
            let position = Position::new(x, y);
            if !self.snake.intersects(position) {
                self.food = Some(position);
                return;
            }
            tries = tries + 1;
        }

        let mut y: u16 = 0;
        while y < self.height
            invariant
                self.snake == old(self).snake,
                self.snake_direction == old(self).snake_direction,
                self.width == old(self).width,
                self.height == old(self).height,
                self.width >= 1,
                self.height >= 1,
                self.snake.body@.len() != self.width * self.height,
                y <= self.height,
                forall|p: Position|
                    in_bounds(p, self.width, self.height) && p.y < y ==> #[trigger] occupies(
                        self.snake.body@,
                        p,
                    ),
            decreases self.height - y,
        {
            let mut x: u16 = 0;
            while x < self.width
                invariant
                    self.snake == old(self).snake,
                    self.snake_direction == old(self).snake_direction,
                    self.width == old(self).width,
                    self.height == old(self).height,
                    self.width >= 1,
                    self.height >= 1,
                    self.snake.body@.len() != self.width * self.height,
                    y < self.height,
                    x <= self.width,
                    forall|p: Position|
                        in_bounds(p, self.width, self.height) && p.y < y ==> #[trigger] occupies(
                            self.snake.body@,
                            p,
                        ),
                    forall|p: Position|
                        in_bounds(p, self.width, self.height) && p.y == y && p.x < x
                            ==> #[trigger] occupies(self.snake.body@, p),
                decreases self.width - x,
            {
                let position = Position::new(x, y);
                if !self.snake.intersects(position) {
                    self.food = Some(position);
                    return;
                }
                x = x + 1;
            }
            y = y + 1;
        }

        self.food = None;
    }
}

/// Splitting the index of a row-by-row enumeration of a `w` by `h`
/// board: index `i` names the cell in column `i % w` of row `i / w`,
/// and both parts lie on the board.
proof fn lemma_cell_of_index(i: int, w: int, h: int)
    requires
        w >= 1,
        h >= 1,
        0 <= i < w * h,
    ensures
        0 <= i % w < w,
        0 <= i / w < h,
        i == w * (i / w) + (i % w),
{
    vstd::arithmetic::div_mod::lemma_mod_pos_bound(i, w);
    vstd::arithmetic::div_mod::lemma_fundamental_div_mod(i, w);
    assert(0 <= i / w && i / w < h) by (nonlinear_arith)
        requires
            w >= 1,
            h >= 1,
            0 <= i < w * h,
            i == w * (i / w) + (i % w),
            0 <= i % w < w,
    {}
}

/// A `width` by `height` board has exactly `width * height` cells: the
/// cells are enumerated row by row without repetition.
proof fn lemma_board_cell_count(width: u16, height: u16)
    requires
        width >= 1,
        height >= 1,
        width * height <= u16::MAX,
    ensures
        Set::new(|p: Position| in_bounds(p, width, height)).finite(),
        Set::new(|p: Position| in_bounds(p, width, height)).len() == width * height,
{
    broadcast use vstd::seq_lib::seq_to_set_is_finite;

    let w = width as int;
    let h = height as int;
    let board = Set::new(|p: Position| in_bounds(p, width, height));
    let all = Seq::new(
        (w * h) as nat,
        |i: int| (Position { x: (i % w) as u16, y: (i / w) as u16 }),
    );

    assert forall|i: int, j: int| 0 <= i < j < all.len() implies all[i] != all[j] by {
        lemma_cell_of_index(i, w, h);
        lemma_cell_of_index(j, w, h);
    }
    assert(all.no_duplicates());

    assert forall|p: Position| board.contains(p) implies all.to_set().contains(p) by {
        let idx = (p.y as int) * w + (p.x as int);
        assert(0 <= idx < w * h) by (nonlinear_arith)
            requires
                w >= 1,
                h >= 1,
                idx == (p.y as int) * w + (p.x as int),
                0 <= (p.x as int) < w,
                0 <= (p.y as int) < h,
        {}
        vstd::arithmetic::div_mod::lemma_fundamental_div_mod_converse(
            idx,
            w,
            p.y as int,
            p.x as int,
        );
        assert(all[idx] == p);
    }
    assert forall|p: Position| all.to_set().contains(p) implies board.contains(p) by {
        let i = choose|i: int| 0 <= i < all.len() && all[i] == p;
        lemma_cell_of_index(i, w, h);
    }
    assert(all.to_set() =~= board);
    all.unique_seq_to_set();
}

/// Food exhaustion is exact for a snake that holds no cell twice: in a
/// well-formed world without food, such a snake's length equals the
/// board's cell count. (A body with duplicate cells can cover the board
/// while its length exceeds that count, so only the disjunction of the
/// two conditions holds of it.)
pub proof fn lemma_food_exhaustion_exact(w: World)
    requires
        w.wf(),
        w.snake.body@.no_duplicates(),
        w.food.is_none(),
    ensures
        w.snake.body@.len() == w.width * w.height,
{
    let body = w.snake.body@;
    if body.len() != w.width * w.height {
        let board = Set::new(|p: Position| in_bounds(p, w.width, w.height));
        lemma_board_cell_count(w.width, w.height);
        assert forall|p: Position| board.contains(p) implies body.to_set().contains(p) by {
            assert(occupies(body, p));
            let i = choose|i: int| 0 <= i < body.len() && body[i] == p;
            assert(body[i] == p);
        }
        assert forall|p: Position| body.to_set().contains(p) implies board.contains(p) by {
            let i = choose|i: int| 0 <= i < body.len() && body[i] == p;
            assert(in_bounds(body[i], w.width, w.height));
        }
        assert(body.to_set() =~= board);
        body.unique_seq_to_set();
    }
}

/// A body whose cells all sit on one board cell covers the whole board
/// exactly when the board has a single cell.
proof fn lemma_stacked_body_coverage(
    body: Seq<Position>,
    center: Position,
    width: u16,
    height: u16,
)
    requires
        width >= 1,
        height >= 1,
        body.len() >= 1,
        in_bounds(center, width, height),
        forall|i: int| 0 <= i < body.len() ==> body[i] == center,
    ensures
        covers_board(body, width, height) <==> (width == 1 && height == 1),
{
    if width == 1 && height == 1 {
        assert forall|p: Position| in_bounds(p, width, height) implies #[trigger] occupies(
            body,
            p,
        ) by {
            assert(center.x == 0 && center.y == 0);
            assert(body[0] == p);
        }
    } else {
        let q = if center.x == 0 && center.y == 0 {
            if width >= 2 {
                Position { x: 1, y: 0 }
            } else {
                Position { x: 0, y: 1 }
            }
        } else {
            Position { x: 0, y: 0 }
        };
        assert(in_bounds(q, width, height) && q != center);
        if occupies(body, q) {
            let i = choose|i: int| 0 <= i < body.len() && body[i] == q;
            assert(body[i] == center);
        }
        assert(!occupies(body, q));
    }
}

/// A cell of the advanced body is either the new head or a cell the old
/// body already had, so a cell on neither is not on the advanced body,
/// and the new head is.
proof fn lemma_occupies_after_advance(body: Seq<Position>, new_head: Position, p: Position)
    requires
        body.len() >= 1,
    ensures
        occupies(advanced(body, new_head), p) <==> (p == new_head || occupies(
            body.drop_last(),
            p,
        )),
        occupies(body.drop_last(), p) ==> occupies(body, p),
{
    let b1 = advanced(body, new_head);
    if occupies(b1, p) {
        let i = choose|i: int| 0 <= i < b1.len() && b1[i] == p;
        if i >= 1 {
            assert(body.drop_last()[i - 1] == p);
        }
    }
    if occupies(body.drop_last(), p) {
        let i = choose|i: int| 0 <= i < body.drop_last().len() && body.drop_last()[i] == p;
        assert(body[i] == p);
        assert(b1[i + 1] == p);
    }
    if p == new_head {
        assert(b1[0] == p);
    }
}

/// Relies on rand::random: a uniformly distributed `u16` from the
/// thread-local generator. Nothing is assumed of the value, so every
/// caller's proof holds for every outcome.
#[verifier::external_body]
fn random_u16() -> u16 {
    rand::random::<u16>()
}

} // verus!
