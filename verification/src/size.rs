//! A width/height pair.
use vstd::prelude::*;

verus! {

/// An extent on the character grid: a number of columns and of rows.
#[derive(Debug, Default, Clone, Copy, PartialEq, Eq, Hash, Structural)]
pub struct Size {
    /// The width in columns.
    pub width: u16,
    /// The height in rows.
    pub height: u16,
}

impl Size {
    /// Create a new size.
    pub fn new(width: u16, height: u16) -> (r: Self)
        ensures
            r.width == width,
            r.height == height,
    {
        Size { width, height }
    }
}

impl From<(u16, u16)> for Size {
    /// The size with the given extents.
    fn from(pair: (u16, u16)) -> (r: Size) {
        Size { width: pair.0, height: pair.1 }
    }
}

impl vstd::std_specs::convert::FromSpecImpl<(u16, u16)> for Size {
    open spec fn obeys_from_spec() -> bool {
        true
    }

    open spec fn from_spec(pair: (u16, u16)) -> Size {
        Size { width: pair.0, height: pair.1 }
    }
}

} // verus!
