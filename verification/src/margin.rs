//! A symmetric margin around a rectangle.
use vstd::prelude::*;

verus! {

/// A margin taken off both horizontal and both vertical edges of a
/// rectangle.
#[derive(Debug, Default, Clone, Copy, PartialEq, Eq, Hash, Structural)]
pub struct Margin {
    /// Columns taken off the left and the right edge each.
    pub horizontal: u16,
    /// Rows taken off the top and the bottom edge each.
    pub vertical: u16,
}

impl Margin {
    /// Create a new margin.
    pub fn new(horizontal: u16, vertical: u16) -> (r: Self)
        ensures
            r.horizontal == horizontal,
            r.vertical == vertical,
    {
        Margin { horizontal, vertical }
    }
}

} // verus!
