use vstd::prelude::*;

use crate::common::Position;
use crate::common::in_bounds;
use std::collections::VecDeque;

verus! {

/// The current direction of travel, one of four cardinal values.
#[derive(Debug, Clone, Copy, Eq, PartialEq, Structural)]
pub enum Direction {
    Up,
    Down,
    Left,
    Right,
}

/// The snake: an ordered sequence of cells, head first, tail last.
///
/// The body holds at least one cell after construction. A cell may occur
/// twice (the freshly built snake stacks all its cells on the start cell,
/// and growth duplicates the tail cell); a duplicate involving the head
/// signals game over, not a structural fault.
#[derive(Debug)]
pub struct Snake {
    pub body: VecDeque<Position>,
}

/// Decrement `v` by one step on an axis of `max` cells, wrapping from 0
/// to `max - 1`.
pub open spec fn dec_wrap(v: u16, max: u16) -> u16 {
    if v == 0 {
        (max - 1) as u16
    } else {
        (v - 1) as u16
    }
}

/// Increment `v` by one step on an axis of `max` cells, wrapping from
/// `max - 1` to 0.
pub open spec fn inc_wrap(v: u16, max: u16) -> u16 {
    if v == max - 1 {
        0u16
    } else {
        (v + 1) as u16
    }
}

/// The cell one step from `p` in direction `d`, wrapping at the edges of a
/// `max_x` by `max_y` board. The y axis grows downward: `Up` decrements y.
pub open spec fn wrapped_position(p: Position, d: Direction, max_x: u16, max_y: u16) -> Position {
    match d {
        Direction::Up => Position { x: p.x, y: dec_wrap(p.y, max_y) },
        Direction::Down => Position { x: p.x, y: inc_wrap(p.y, max_y) },
        Direction::Left => Position { x: dec_wrap(p.x, max_x), y: p.y },
        Direction::Right => Position { x: inc_wrap(p.x, max_x), y: p.y },
    }
}

/// Whether some cell of `body` equals `p`.
pub open spec fn occupies(body: Seq<Position>, p: Position) -> bool {
    exists|i: int| 0 <= i < body.len() && body[i] == p
}

/// Whether the head cell reappears somewhere behind the head.
pub open spec fn self_intersects(body: Seq<Position>) -> bool {
    exists|i: int| 1 <= i < body.len() && #[trigger] body[i] == body[0]
}

/// Wrap-around at the board edges: one step Left from `x = 0` lands at
/// `x = max_x - 1` with y unchanged, and one step Up from `y = 0` lands
/// at `y = max_y - 1` with x unchanged; symmetrically, one step Right
/// from `x = max_x - 1` lands at `x = 0`, and one step Down from
/// `y = max_y - 1` lands at `y = 0`.
pub proof fn lemma_wrap_around(p: Position, max_x: u16, max_y: u16)
    requires
        max_x >= 1,
        max_y >= 1,
        in_bounds(p, max_x, max_y),
    ensures
        p.x == 0 ==> wrapped_position(p, Direction::Left, max_x, max_y) == (Position {
            x: (max_x - 1) as u16,
            y: p.y,
        }),
        p.y == 0 ==> wrapped_position(p, Direction::Up, max_x, max_y) == (Position {
            x: p.x,
            y: (max_y - 1) as u16,
        }),
        p.x == max_x - 1 ==> wrapped_position(p, Direction::Right, max_x, max_y) == (Position {
            x: 0u16,
            y: p.y,
        }),
        p.y == max_y - 1 ==> wrapped_position(p, Direction::Down, max_x, max_y) == (Position {
            x: p.x,
            y: 0u16,
        }),
{
}

/// The body after one step of movement: the new head in front, the old
/// tail cell dropped.
pub open spec fn advanced(body: Seq<Position>, new_head: Position) -> Seq<Position> {
    seq![new_head] + body.drop_last()
}

impl Snake {
    /// Builds a snake of `size` cells, all stacked on the start cell
    /// `(x, y)`; the cells spread out over the following moves.
    pub fn new(x: u16, y: u16, size: u16) -> (s: Self)
        requires
            size >= 1,
        ensures
            s.body@.len() == size as int,
            forall|i: int| 0 <= i < size as int ==> s.body@[i] == (Position { x, y }),
    {
        let mut body: VecDeque<Position> = VecDeque::new();
        let mut i: u16 = 0;
        while i < size
            invariant
                i <= size,
                body@.len() == i as int,
                forall|j: int| 0 <= j < i as int ==> body@[j] == (Position { x, y }),
            decreases size - i,
        {
            body.push_front(Position::new(x, y));
            i = i + 1;
        }
        Self { body }
    }

    /// Advances the snake one cell in `direction` on a `max_x` by `max_y`
    /// board, wrapping at the edges: the new head is pushed in front and
    /// the rearmost cell dropped, so the length is unchanged.
    pub fn move_to(&mut self, direction: &Direction, max_x: u16, max_y: u16)
        requires
            old(self).body@.len() >= 1,
            max_x >= 1,
            max_y >= 1,
            in_bounds(old(self).body@[0], max_x, max_y),
        ensures
            final(self).body@ == advanced(
                old(self).body@,
                wrapped_position(old(self).body@[0], *direction, max_x, max_y),
            ),
            final(self).body@.len() == old(self).body@.len(),
            final(self).body@[0] == wrapped_position(old(self).body@[0], *direction, max_x, max_y),
            in_bounds(final(self).body@[0], max_x, max_y),
    {
        let mut new_head = self.body[0];
        match direction {
            Direction::Up => {
                if new_head.y == 0 {
                    new_head.y = max_y - 1;
                } else {
                    new_head.y -= 1;
                }
            },
            Direction::Down => {
                if new_head.y == max_y - 1 {
                    new_head.y = 0;
                } else {
                    new_head.y += 1;
                }
            },
            Direction::Left => {
                if new_head.x == 0 {
                    new_head.x = max_x - 1;
                } else {
                    new_head.x -= 1;
                }
            },
            Direction::Right => {
                if new_head.x == max_x - 1 {
                    new_head.x = 0;
                } else {
                    new_head.x += 1;
                }
            },
        }

        self.body.push_front(new_head);
        let _ = self.body.pop_back();
        proof {
            assert(self.body@ =~= advanced(
                old(self).body@,
                wrapped_position(old(self).body@[0], *direction, max_x, max_y),
            ));
        }
    }

    /// Returns the foremost cell.
    pub fn get_head(&self) -> (p: Position)
        requires
            self.body@.len() >= 1,
        ensures
            p == self.body@[0],
    {
        self.body[0]
    }

    /// Duplicates the rearmost cell, growing the snake by one; together
    /// with the preceding move this yields a net growth of one cell.
    pub fn eat(&mut self)
        requires
            old(self).body@.len() >= 1,
        ensures
            final(self).body@ == old(self).body@.push(old(self).body@.last()),
    {
        let tail = self.body[self.body.len() - 1];
        self.body.push_back(tail);
    }

    /// Whether any cell of the body equals `position`.
    pub fn intersects(&self, position: Position) -> (r: bool)
        ensures
            r == occupies(self.body@, position),
    {
        let mut i: usize = 0;
        while i < self.body.len()
            invariant
                i <= self.body@.len(),
                forall|j: int| 0 <= j < i as int ==> self.body@[j] != position,
            decreases self.body@.len() - i,
        {
            if self.body[i] == position {
                return true;
            }
            i += 1;
        }
        false
    }

    /// Whether the head equals any other cell of the body.
    pub fn intersects_itself(&self) -> (r: bool)
        requires
            self.body@.len() >= 1,
        ensures
            r == self_intersects(self.body@),
    {
        let head = self.get_head();
        let mut i: usize = 1;
        while i < self.body.len()
            invariant
                1 <= i <= self.body@.len(),
                head == self.body@[0],
                forall|j: int| 1 <= j < i as int ==> #[trigger] self.body@[j] != self.body@[0],
            decreases self.body@.len() - i,
        {
            if self.body[i] == head {
                return true;
            }
            i += 1;
        }
        false
    }
}

} // verus!
