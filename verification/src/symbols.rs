//! The characters the shape-painting grids draw with.
use vstd::prelude::*;

verus! {

/// The empty Braille pattern, the base of the Braille block.
pub const BRAILLE_BLANK: u16 = 0x2800;

/// The kind of symbol a canvas paints its points with.
#[derive(Debug, Default, Clone, Copy, PartialEq, Eq, Hash, Structural)]
pub enum Marker {
    /// One bullet point per cell.
    Dot,
    /// One full block per cell.
    Block,
    /// One half block per cell.
    Bar,
    /// Braille patterns, two by four dots per cell.
    #[default]
    Braille,
    /// Half blocks with separate colors, one by two pixels per cell.
    HalfBlock,
}

/// The bullet character.
pub fn dot_char() -> (r: char)
    ensures
        r == '\u{2022}',
{
    '\u{2022}'
}

/// The full block character.
pub fn block_char() -> (r: char)
    ensures
        r == '\u{2588}',
{
    '\u{2588}'
}

/// The lower half block character.
pub fn lower_half_char() -> (r: char)
    ensures
        r == '\u{2584}',
{
    '\u{2584}'
}

/// The upper half block character.
pub fn upper_half_char() -> (r: char)
    ensures
        r == '\u{2580}',
{
    '\u{2580}'
}

/// The Braille dot bit for the sub-cell position `(dx, dy)`, `dx` in
/// 0..2 and `dy` in 0..4.
pub open spec fn spec_braille_dot(dy: int, dx: int) -> u16 {
    if dy == 0 {
        if dx == 0 {
            0x01u16
        } else {
            0x08u16
        }
    } else if dy == 1 {
        if dx == 0 {
            0x02u16
        } else {
            0x10u16
        }
    } else if dy == 2 {
        if dx == 0 {
            0x04u16
        } else {
            0x20u16
        }
    } else {
        if dx == 0 {
            0x40u16
        } else {
            0x80u16
        }
    }
}

/// Compute [`spec_braille_dot`].
pub fn braille_dot(dy: usize, dx: usize) -> (r: u16)
    requires
        dy < 4,
        dx < 2,
    ensures
        r == spec_braille_dot(dy as int, dx as int),
        r <= 0xFF,
{
    if dy == 0 {
        if dx == 0 {
            0x01
        } else {
            0x08
        }
    } else if dy == 1 {
        if dx == 0 {
            0x02
        } else {
            0x10
        }
    } else if dy == 2 {
        if dx == 0 {
            0x04
        } else {
            0x20
        }
    } else {
        if dx == 0 {
            0x40
        } else {
            0x80
        }
    }
}

} // verus!
