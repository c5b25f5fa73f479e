//! A coordinate on the character grid.
use vstd::prelude::*;

verus! {

/// A position on the terminal grid, relative to its top-left corner.
///
/// The x axis grows to the right and the y axis grows downwards; the
/// top-left cell is `(0, 0)`.
#[derive(Debug, Clone, Copy, PartialEq, Eq, Hash, Structural)]
pub struct Position {
    /// The column, counted from the left edge.
    pub x: u16,
    /// The row, counted from the top edge.
    pub y: u16,
}

impl Position {
    /// Create a new position.
    pub fn new(x: u16, y: u16) -> (r: Self)
        ensures
            r.x == x,
            r.y == y,
    {
        Position { x, y }
    }
}

impl From<(u16, u16)> for Position {
    /// The position with the given coordinates.
    fn from(pair: (u16, u16)) -> (r: Position) {
        Position { x: pair.0, y: pair.1 }
    }
}

impl vstd::std_specs::convert::FromSpecImpl<(u16, u16)> for Position {
    open spec fn obeys_from_spec() -> bool {
        true
    }

    open spec fn from_spec(pair: (u16, u16)) -> Position {
        Position { x: pair.0, y: pair.1 }
    }
}

impl From<Position> for (u16, u16) {
    /// The coordinates of the position.
    fn from(position: Position) -> (r: (u16, u16)) {
        (position.x, position.y)
    }
}

impl vstd::std_specs::convert::FromSpecImpl<Position> for (u16, u16) {
    open spec fn obeys_from_spec() -> bool {
        true
    }

    open spec fn from_spec(position: Position) -> (u16, u16) {
        (position.x, position.y)
    }
}

} // verus!
