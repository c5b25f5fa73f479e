//! Display width of characters, as the terminal will render them.
use vstd::prelude::*;

verus! {

/// The number of terminal columns a character occupies. The value is a
/// function of the character alone; it is given by the Unicode East
/// Asian Width tables, which the library does not restate.
pub uninterp spec fn char_width_of(c: char) -> nat;

/// Relies on unicode_width's `UnicodeWidthChar::width`: the displayed
/// column count of a character, by Unicode Standard Annex #11, treating
/// ambiguous characters as narrow. Control characters, for which the
/// crate returns `None`, count as zero columns here.
#[verifier::external_body]
pub fn char_width(c: char) -> (w: usize)
    ensures
        w as nat == char_width_of(c),
{
    unicode_width::UnicodeWidthChar::width(c).unwrap_or(0)
}

} // verus!
