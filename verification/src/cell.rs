//! One character cell of a buffer.
use vstd::prelude::*;

use crate::style::{Color, Modifier, Style};
use crate::width::{char_width, char_width_of};

verus! {

/// The content and appearance of one cell of the character grid.
///
/// `skip` marks the cell as the hidden right half of a two-column glyph
/// in the cell to its left: the diff engine never targets such a cell,
/// since writing the glyph itself repaints it.
#[derive(Debug, Clone, Copy, PartialEq, Eq, Hash, Structural)]
pub struct Cell {
    /// The character shown in the cell.
    pub symbol: char,
    /// The foreground color.
    pub fg: Color,
    /// The background color.
    pub bg: Color,
    /// The text attribute flags.
    pub modifier: Modifier,
    /// Whether the cell is masked by a wide glyph to its left.
    pub skip: bool,
}

/// The blank cell a fresh buffer is filled with.
pub open spec fn spec_default_cell() -> Cell {
    Cell {
        symbol: ' ',
        fg: Color::Reset,
        bg: Color::Reset,
        modifier: Modifier { bits: 0 },
        skip: false,
    }
}

/// The blank, skip-marked cell placed under the right half of a wide
/// glyph.
pub open spec fn spec_masked_cell() -> Cell {
    Cell {
        symbol: ' ',
        fg: Color::Reset,
        bg: Color::Reset,
        modifier: Modifier { bits: 0 },
        skip: true,
    }
}

/// Whether a cell's glyph covers two columns. A skip-marked cell is
/// never wide (it is the hidden half of a glyph), and a plain space
/// never is.
pub open spec fn spec_cell_wide(c: Cell) -> bool {
    !c.skip && c.symbol != ' ' && char_width_of(c.symbol) >= 2
}

/// The cell that results from applying a style patch to `c`.
pub open spec fn spec_styled_cell(c: Cell, style: Style) -> Cell {
    Cell {
        fg: match style.fg {
            Some(color) => color,
            None => c.fg,
        },
        bg: match style.bg {
            Some(color) => color,
            None => c.bg,
        },
        modifier: Modifier {
            bits: (c.modifier.bits & !style.sub_modifier.bits) | style.add_modifier.bits,
        },
        ..c
    }
}

impl Cell {
    /// The blank cell.
    pub fn empty() -> (r: Cell)
        ensures
            r == spec_default_cell(),
    {
        Cell {
            symbol: ' ',
            fg: Color::Reset,
            bg: Color::Reset,
            modifier: Modifier { bits: 0 },
            skip: false,
        }
    }

    /// The blank, skip-marked cell.
    pub fn masked() -> (r: Cell)
        ensures
            r == spec_masked_cell(),
    {
        Cell {
            symbol: ' ',
            fg: Color::Reset,
            bg: Color::Reset,
            modifier: Modifier { bits: 0 },
            skip: true,
        }
    }

    /// A cell showing the given character in the given style, on the
    /// blank cell's colors.
    pub fn styled(symbol: char, style: Style) -> (r: Cell)
        ensures
            r == spec_styled_cell(Cell { symbol, ..spec_default_cell() }, style),
    {
        let mut c = Cell::empty();
        c.symbol = symbol;
        c.apply_style(style);
        c
    }

    /// Replace the character shown in the cell.
    pub fn set_char(&mut self, symbol: char)
        ensures
            *final(self) == (Cell { symbol, ..*old(self) }),
    {
        self.symbol = symbol;
    }

    /// Replace the foreground color.
    pub fn set_fg(&mut self, color: Color)
        ensures
            *final(self) == (Cell { fg: color, ..*old(self) }),
    {
        self.fg = color;
    }

    /// Replace the background color.
    pub fn set_bg(&mut self, color: Color)
        ensures
            *final(self) == (Cell { bg: color, ..*old(self) }),
    {
        self.bg = color;
    }

    /// Apply a style patch to the cell: colors the style sets replace the
    /// cell's, and the style's flags are added and removed.
    pub fn apply_style(&mut self, style: Style)
        ensures
            *final(self) == spec_styled_cell(*old(self), style),
    {
        match style.fg {
            Some(color) => {
                self.fg = color;
            },
            None => {},
        }
        match style.bg {
            Some(color) => {
                self.bg = color;
            },
            None => {},
        }
        self.modifier = Modifier {
            bits: (self.modifier.bits & !style.sub_modifier.bits) | style.add_modifier.bits,
        };
    }

    /// Restore the cell to the blank state.
    pub fn reset(&mut self)
        ensures
            *final(self) == spec_default_cell(),
    {
        *self = Cell::empty();
    }

    /// Whether the cell's glyph covers two columns
    /// ([`spec_cell_wide`]).
    pub fn is_wide(&self) -> (r: bool)
        ensures
            r == spec_cell_wide(*self),
    {
        if self.skip || self.symbol == ' ' {
            false
        } else {
            char_width(self.symbol) >= 2
        }
    }
}

impl Default for Cell {
    /// The blank cell.
    fn default() -> (r: Cell)
        ensures
            r == spec_default_cell(),
    {
        Cell::empty()
    }
}

} // verus!
