use vstd::prelude::*;

verus! {

/// A discrete coordinate pair on the game board.
///
/// A position is valid for a board of a given width and height when
/// `x < width` and `y < height`; see `in_bounds`.
#[derive(Debug, Clone, Copy, Eq, PartialEq, Structural)]
pub struct Position {
    pub x: u16,
    pub y: u16,
}

/// Whether `p` lies on a board of the given dimensions.
pub open spec fn in_bounds(p: Position, width: u16, height: u16) -> bool {
    p.x < width && p.y < height
}

impl Position {
    pub fn new(x: u16, y: u16) -> (p: Self)
        ensures
            p == (Position { x, y }),
    {
        Self { x, y }
    }
}

} // verus!
