//! A signed displacement of a rectangle.
use vstd::prelude::*;

verus! {

/// Amounts by which to move a rectangle, without changing its size.
///
/// Positive `x` moves to the right, positive `y` moves down; negative
/// values move the other way.
#[derive(Debug, Default, Clone, Copy, PartialEq, Eq, Hash, Structural)]
pub struct Offset {
    /// The horizontal displacement in columns.
    pub x: i32,
    /// The vertical displacement in rows.
    pub y: i32,
}

impl Offset {
    /// Create a new offset.
    pub fn new(x: i32, y: i32) -> (r: Self)
        ensures
            r.x == x,
            r.y == y,
    {
        Offset { x, y }
    }
}

} // verus!
