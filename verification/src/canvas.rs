//! The sub-cell-resolution grids that shape painting draws on.
//!
//! Three encodings share one capability set: a plain character grid
//! (one dot per cell), a Braille grid (two by four dots per cell, one
//! foreground color) and a half-block grid (one by two pixels per cell,
//! separate colors for the upper and lower half). The encodings form a
//! closed set, so [`Grid`] is a tagged union rather than an open trait.
use vstd::prelude::*;

use crate::style::Color;
use crate::symbols::{
    braille_dot, spec_braille_dot, Marker, BRAILLE_BLANK,
};

verus! {

/// A saved snapshot of a grid's paint state: one character per cell and
/// its foreground/background color pair.
#[derive(Debug, Clone)]
pub struct Layer {
    /// The characters, row-major.
    pub chars: Vec<char>,
    /// The foreground and background color of each cell.
    pub colors: Vec<(Color, Color)>,
}

/// Relies on char::from_u32: `Some` exactly for Unicode scalar values
/// (everything below the surrogate range, and from the end of the
/// surrogate range to the maximum code point), and the returned
/// character has the given code point.
#[verifier::external_body]
fn char_from_u32(v: u32) -> (r: Option<char>)
    ensures
        (r is Some) <==> (v < 0xD800 || (0xE000 <= v && v <= 0x10FFFF)),
        r matches Some(c) ==> c as u32 == v,
{
    char::from_u32(v)
}


/// What a blank Braille grid of the given extent looks like.
pub open spec fn spec_braille_blank(r: BrailleGrid, width: u16, height: u16) -> bool {
    &&& r.width == width
    &&& r.height == height
    &&& r.code_points@.len() == width * height
    &&& r.colors@.len() == width * height
    &&& forall|i: int| 0 <= i < r.code_points@.len() ==> #[trigger] r.code_points@[i] == BRAILLE_BLANK
    &&& forall|i: int| 0 <= i < r.colors@.len() ==> #[trigger] r.colors@[i] == Color::Reset
}

/// What painting the dot `(x, y)` does to a Braille grid: in range,
/// the covering cell gains the matching dot and takes the color; out
/// of range, nothing.
pub open spec fn spec_braille_painted(
    g: BrailleGrid,
    r: BrailleGrid,
    x: int,
    y: int,
    color: Color,
) -> bool {
    &&& r.width == g.width
    &&& r.height == g.height
    &&& {
        let idx = (y / 4) * g.width + (x / 2);
        if x / 2 < g.width && y / 4 < g.height {
            r.code_points@ == g.code_points@.update(
                idx,
                (g.code_points@[idx] | spec_braille_dot(y % 4, x % 2)) as u16,
            ) && r.colors@ == g.colors@.update(idx, color)
        } else {
            r.code_points@ == g.code_points@ && r.colors@ == g.colors@
        }
    }
}

/// What a Braille grid's snapshot holds: each cell's pattern as a
/// character on a reset background.
pub open spec fn spec_braille_layer(g: BrailleGrid, r: Layer) -> bool {
    &&& r.chars@.len() == g.code_points@.len()
    &&& r.colors@.len() == g.code_points@.len()
    &&& forall|i: int| 0 <= i < r.chars@.len() ==> (#[trigger] r.chars@[i]) as u32 == g.code_points@[i]
    &&& forall|i: int| 0 <= i < r.colors@.len() ==> #[trigger] r.colors@[i] == (g.colors@[i], Color::Reset)
}

/// What a blank character grid of the given extent looks like.
pub open spec fn spec_char_blank(r: CharGrid, width: u16, height: u16, cell_char: char) -> bool {
    &&& r.width == width
    &&& r.height == height
    &&& r.cell_char == cell_char
    &&& r.cells@.len() == width * height
    &&& r.colors@.len() == width * height
    &&& forall|i: int| 0 <= i < r.cells@.len() ==> #[trigger] r.cells@[i] == ' '
    &&& forall|i: int| 0 <= i < r.colors@.len() ==> #[trigger] r.colors@[i] == Color::Reset
}

/// What painting the dot `(x, y)` does to a character grid: in range,
/// the covering cell shows the paint character in the color; out of
/// range, nothing.
pub open spec fn spec_char_painted(g: CharGrid, r: CharGrid, x: int, y: int, color: Color) -> bool {
    &&& r.width == g.width
    &&& r.height == g.height
    &&& r.cell_char == g.cell_char
    &&& {
        let idx = y * g.width + x;
        if x < g.width && y < g.height {
            r.cells@ == g.cells@.update(idx, g.cell_char) && r.colors@ == g.colors@.update(
                idx,
                color,
            )
        } else {
            r.cells@ == g.cells@ && r.colors@ == g.colors@
        }
    }
}

/// What a character grid's snapshot holds: its characters on a reset
/// background.
pub open spec fn spec_char_layer(g: CharGrid, r: Layer) -> bool {
    &&& r.chars@ == g.cells@
    &&& r.colors@.len() == g.colors@.len()
    &&& forall|i: int| 0 <= i < r.colors@.len() ==> #[trigger] r.colors@[i] == (g.colors@[i], Color::Reset)
}

/// What a blank half-block grid of the given extent looks like.
pub open spec fn spec_half_blank(r: HalfBlockGrid, width: u16, height: u16) -> bool {
    &&& r.width == width
    &&& r.height == height
    &&& r.pixels@.len() == 2 * height
    &&& forall|rr: int| 0 <= rr < r.pixels@.len() ==> (#[trigger] r.pixels@[rr])@.len() == width
    &&& forall|rr: int, c: int|
        0 <= rr < r.pixels@.len() && 0 <= c < r.pixels@[rr]@.len() ==> #[trigger] r.pixels@[rr]@[c]
            == Color::Reset
}

/// What painting the pixel `(x, y)` does to a half-block grid: in
/// range, that pixel takes the color; out of range, nothing.
pub open spec fn spec_half_painted(
    g: HalfBlockGrid,
    r: HalfBlockGrid,
    x: int,
    y: int,
    color: Color,
) -> bool {
    &&& r.width == g.width
    &&& r.height == g.height
    &&& r.pixels@.len() == g.pixels@.len()
    &&& if y < g.pixels@.len() && x < g.width {
        r.pixels@[y]@ == g.pixels@[y]@.update(x, color) && forall|rr: int|
            0 <= rr < g.pixels@.len() && rr != y ==> (#[trigger] r.pixels@[rr])@ == g.pixels@[rr]@
    } else {
        forall|rr: int| 0 <= rr < g.pixels@.len() ==> (#[trigger] r.pixels@[rr])@ == g.pixels@[rr]@
    }
}

/// What a half-block grid's snapshot holds: each vertical pixel pair
/// as a half-block character with its color pair.
pub open spec fn spec_half_layer(g: HalfBlockGrid, r: Layer) -> bool {
    &&& r.chars@.len() == g.width * g.height
    &&& r.colors@.len() == g.width * g.height
    &&& forall|row: int, c: int|
        0 <= row < g.height && 0 <= c < g.width ==> #[trigger] r.chars@[row * g.width + c]
            == spec_half_block_char(g.pixels@[2 * row]@[c], g.pixels@[2 * row + 1]@[c])
    &&& forall|row: int, c: int|
        0 <= row < g.height && 0 <= c < g.width ==> #[trigger] r.colors@[row * g.width + c]
            == spec_half_block_colors(g.pixels@[2 * row]@[c], g.pixels@[2 * row + 1]@[c])
}

/// A grid of Braille patterns: two by four dots per cell, one
/// foreground color per cell.
#[derive(Debug, Clone)]
pub struct BrailleGrid {
    /// The width in terminal columns.
    pub width: u16,
    /// The height in terminal rows.
    pub height: u16,
    /// The Braille pattern of each cell, always inside the Braille
    /// block.
    pub code_points: Vec<u16>,
    /// The foreground color of each cell.
    pub colors: Vec<Color>,
}

impl BrailleGrid {
    /// The shape invariant: one pattern and one color per cell, every
    /// pattern inside the Braille block.
    pub open spec fn wf(self) -> bool {
        &&& self.code_points@.len() == self.width * self.height
        &&& self.colors@.len() == self.width * self.height
        &&& forall|i: int|
            0 <= i < self.code_points@.len() ==> 0x2800 <= #[trigger] self.code_points@[i]
                <= 0x28FF
    }

    /// A blank Braille grid of the given extent in terminal cells.
    pub fn new(width: u16, height: u16) -> (r: BrailleGrid)
        ensures
            r.wf(),
            spec_braille_blank(r, width, height),
    {
        proof {
            assert(width * height <= 0xFFFF * 0xFFFF) by (nonlinear_arith)
                requires
                    width <= 0xFFFF && height <= 0xFFFF,
            ;
            assert(width * height >= 0) by (nonlinear_arith)
                requires
                    width >= 0 && height >= 0,
            ;
        }
        let length: usize = (width as usize) * (height as usize);
        let mut code_points: Vec<u16> = Vec::new();
        let mut colors: Vec<Color> = Vec::new();
        let mut i: usize = 0;
        while i < length
            invariant
                i <= length,
                code_points@.len() == i,
                colors@.len() == i,
                forall|j: int| 0 <= j < i ==> #[trigger] code_points@[j] == BRAILLE_BLANK,
                forall|j: int| 0 <= j < i ==> #[trigger] colors@[j] == Color::Reset,
            decreases length - i,
        {
            code_points.push(BRAILLE_BLANK);
            colors.push(Color::Reset);
            i = i + 1;
        }
        BrailleGrid { width, height, code_points, colors }
    }

    /// The dot resolution: two dots per column, four per row.
    pub fn resolution(&self) -> (r: (u32, u32))
        ensures
            r.0 == 2 * self.width,
            r.1 == 4 * self.height,
    {
        (2 * self.width as u32, 4 * self.height as u32)
    }

    /// Paint the dot at `(x, y)` of the dot grid: the Braille pattern of
    /// the covering cell gains the matching dot and takes the color.
    /// Dots outside the grid are ignored.
    pub fn paint(&mut self, x: usize, y: usize, color: Color)
        requires
            old(self).wf(),
        ensures
            final(self).wf(),
            spec_braille_painted(*old(self), *final(self), x as int, y as int, color),
    {
        let cx = x / 2;
        let cy = y / 4;
        if cx >= self.width as usize || cy >= self.height as usize {
            return ;
        }
        proof {
            assert(cy * self.width + cx < self.width * self.height) by (nonlinear_arith)
                requires
                    cx < self.width && cy < self.height && self.width >= 0 && self.height >= 0,
            ;
            assert(cy * self.width + cx <= 0xFFFF * 0xFFFF + 0xFFFF) by (nonlinear_arith)
                requires
                    0 <= cy <= 0xFFFF && 0 <= self.width <= 0xFFFF && 0 <= cx <= 0xFFFF,
            ;
        }
        let index: usize = cy * (self.width as usize) + cx;
        let cp = self.code_points[index];
        let bit = braille_dot(y % 4, x % 2);
        let ncp: u16 = cp | bit;
        proof {
            assert(0x2800 <= (cp | bit) <= 0x28FF) by (bit_vector)
                requires
                    0x2800 <= cp <= 0x28FF && bit <= 0xFF,
            ;
        }
        self.code_points.set(index, ncp);
        self.colors.set(index, color);
    }

    /// Snapshot the grid as a layer: each cell its Braille character on
    /// a reset background.
    pub fn save(&self) -> (r: Layer)
        requires
            self.wf(),
        ensures
            spec_braille_layer(*self, r),
    {
        let mut chars: Vec<char> = Vec::new();
        let mut colors: Vec<(Color, Color)> = Vec::new();
        let mut i: usize = 0;
        while i < self.code_points.len()
            invariant
                self.wf(),
                i <= self.code_points@.len(),
                chars@.len() == i,
                colors@.len() == i,
                forall|j: int|
                    0 <= j < i ==> (#[trigger] chars@[j]) as u32 == self.code_points@[j],
                forall|j: int|
                    0 <= j < i ==> #[trigger] colors@[j] == (self.colors@[j], Color::Reset),
            decreases self.code_points@.len() - i,
        {
            let cp = self.code_points[i];
            let c = match char_from_u32(cp as u32) {
                Some(c) => c,
                None => ' ',  // unreachable: the pattern stays in the Braille block
            };
            chars.push(c);
            colors.push((self.colors[i], Color::Reset));
            i = i + 1;
        }
        Layer { chars, colors }
    }

    /// Blank the grid again.
    pub fn reset(&mut self)
        requires
            old(self).wf(),
        ensures
            final(self).wf(),
            spec_braille_blank(*final(self), old(self).width, old(self).height),
    {
        let fresh = BrailleGrid::new(self.width, self.height);
        *self = fresh;
    }
}

/// A grid of one character per cell.
#[derive(Debug, Clone)]
pub struct CharGrid {
    /// The width in terminal columns.
    pub width: u16,
    /// The height in terminal rows.
    pub height: u16,
    /// The character of each cell.
    pub cells: Vec<char>,
    /// The foreground color of each cell.
    pub colors: Vec<Color>,
    /// The character painted dots show.
    pub cell_char: char,
}

impl CharGrid {
    /// The shape invariant: one character and one color per cell.
    pub open spec fn wf(self) -> bool {
        &&& self.cells@.len() == self.width * self.height
        &&& self.colors@.len() == self.width * self.height
    }

    /// A blank character grid of the given extent, painting with
    /// `cell_char`.
    pub fn new(width: u16, height: u16, cell_char: char) -> (r: CharGrid)
        ensures
            r.wf(),
            spec_char_blank(r, width, height, cell_char),
    {
        proof {
            assert(width * height <= 0xFFFF * 0xFFFF) by (nonlinear_arith)
                requires
                    width <= 0xFFFF && height <= 0xFFFF,
            ;
            assert(width * height >= 0) by (nonlinear_arith)
                requires
                    width >= 0 && height >= 0,
            ;
        }
        let length: usize = (width as usize) * (height as usize);
        let mut cells: Vec<char> = Vec::new();
        let mut colors: Vec<Color> = Vec::new();
        let mut i: usize = 0;
        while i < length
            invariant
                i <= length,
                cells@.len() == i,
                colors@.len() == i,
                forall|j: int| 0 <= j < i ==> #[trigger] cells@[j] == ' ',
                forall|j: int| 0 <= j < i ==> #[trigger] colors@[j] == Color::Reset,
            decreases length - i,
        {
            cells.push(' ');
            colors.push(Color::Reset);
            i = i + 1;
        }
        CharGrid { width, height, cells, colors, cell_char }
    }

    /// The dot resolution: one dot per cell.
    pub fn resolution(&self) -> (r: (u32, u32))
        ensures
            r.0 == self.width,
            r.1 == self.height,
    {
        (self.width as u32, self.height as u32)
    }

    /// Paint the dot at `(x, y)`: the covering cell shows the paint
    /// character in the given color. Dots outside the grid are ignored.
    pub fn paint(&mut self, x: usize, y: usize, color: Color)
        requires
            old(self).wf(),
        ensures
            final(self).wf(),
            spec_char_painted(*old(self), *final(self), x as int, y as int, color),
    {
        if x >= self.width as usize || y >= self.height as usize {
            return ;
        }
        proof {
            assert(y * self.width + x < self.width * self.height) by (nonlinear_arith)
                requires
                    x < self.width && y < self.height && self.width >= 0 && self.height >= 0,
            ;
            assert(y * self.width + x <= 0xFFFF * 0xFFFF + 0xFFFF) by (nonlinear_arith)
                requires
                    0 <= y <= 0xFFFF && 0 <= self.width <= 0xFFFF && 0 <= x <= 0xFFFF,
            ;
        }
        let index: usize = y * (self.width as usize) + x;
        self.cells.set(index, self.cell_char);
        self.colors.set(index, color);
    }

    /// Snapshot the grid as a layer on a reset background.
    pub fn save(&self) -> (r: Layer)
        requires
            self.wf(),
        ensures
            spec_char_layer(*self, r),
    {
        let chars = self.cells.clone();
        let mut colors: Vec<(Color, Color)> = Vec::new();
        let mut i: usize = 0;
        while i < self.colors.len()
            invariant
                i <= self.colors@.len(),
                colors@.len() == i,
                forall|j: int|
                    0 <= j < i ==> #[trigger] colors@[j] == (self.colors@[j], Color::Reset),
            decreases self.colors@.len() - i,
        {
            colors.push((self.colors[i], Color::Reset));
            i = i + 1;
        }
        proof {
            assert(chars@ =~= self.cells@);
        }
        Layer { chars, colors }
    }

    /// Blank the grid again, keeping the paint character.
    pub fn reset(&mut self)
        requires
            old(self).wf(),
        ensures
            final(self).wf(),
            spec_char_blank(*final(self), old(self).width, old(self).height, old(self).cell_char),
    {
        let fresh = CharGrid::new(self.width, self.height, self.cell_char);
        *self = fresh;
    }
}

/// The character a half-block cell shows for an upper and lower pixel
/// color: blank when both are unset, a half block when one is set, and
/// a full block when both halves have the same color — the full block
/// is deliberate, so a test can treat the cell as one character.
pub open spec fn spec_half_block_char(upper: Color, lower: Color) -> char {
    if upper == Color::Reset && lower == Color::Reset {
        ' '
    } else if upper == Color::Reset {
        '\u{2584}'
    } else if lower == Color::Reset {
        '\u{2580}'
    } else if upper == lower {
        '\u{2588}'
    } else {
        '\u{2580}'
    }
}

/// The color pair a half-block cell carries: foreground for the upper
/// half, background for the lower, with reset halves falling through.
pub open spec fn spec_half_block_colors(upper: Color, lower: Color) -> (Color, Color) {
    if upper == Color::Reset && lower == Color::Reset {
        (Color::Reset, Color::Reset)
    } else if upper == Color::Reset {
        (lower, Color::Reset)
    } else if lower == Color::Reset {
        (upper, Color::Reset)
    } else {
        (upper, lower)
    }
}

/// A grid of vertical pixel pairs shown as half blocks: one by two
/// pixels per cell, independent colors for the two halves.
#[derive(Debug, Clone)]
pub struct HalfBlockGrid {
    /// The width in terminal columns.
    pub width: u16,
    /// The height in terminal rows.
    pub height: u16,
    /// The pixel colors, `2 * height` rows of `width` entries.
    pub pixels: Vec<Vec<Color>>,
}

impl HalfBlockGrid {
    /// The shape invariant: two pixel rows per cell row, each as wide
    /// as the grid.
    pub open spec fn wf(self) -> bool {
        &&& self.pixels@.len() == 2 * self.height
        &&& forall|r: int| 0 <= r < self.pixels@.len() ==> (#[trigger] self.pixels@[r])@.len() == self.width
    }

    /// A blank half-block grid of the given extent.
    pub fn new(width: u16, height: u16) -> (r: HalfBlockGrid)
        ensures
            r.wf(),
            spec_half_blank(r, width, height),
    {
        let mut row: Vec<Color> = Vec::new();
        let mut i: usize = 0;
        while i < width as usize
            invariant
                i <= width as usize,
                row@.len() == i,
                forall|j: int| 0 <= j < i ==> #[trigger] row@[j] == Color::Reset,
            decreases width as usize - i,
        {
            row.push(Color::Reset);
            i = i + 1;
        }
        let rows: usize = 2 * (height as usize);
        let mut pixels: Vec<Vec<Color>> = Vec::new();
        let mut r: usize = 0;
        while r < rows
            invariant
                r <= rows,
                pixels@.len() == r,
                row@.len() == width as int,
                forall|j: int| 0 <= j < row@.len() ==> #[trigger] row@[j] == Color::Reset,
                forall|rr: int| 0 <= rr < r ==> (#[trigger] pixels@[rr])@ == row@,
            decreases rows - r,
        {
            pixels.push(row.clone());
            proof {
                assert(pixels@[r as int]@ =~= row@);
            }
            r = r + 1;
        }
        HalfBlockGrid { width, height, pixels }
    }

    /// The pixel resolution: one pixel per column, two per row.
    pub fn resolution(&self) -> (r: (u32, u32))
        ensures
            r.0 == self.width,
            r.1 == 2 * self.height,
    {
        (self.width as u32, 2 * self.height as u32)
    }

    /// Paint the pixel at `(x, y)`. Pixels outside the grid are
    /// ignored.
    pub fn paint(&mut self, x: usize, y: usize, color: Color)
        requires
            old(self).wf(),
        ensures
            final(self).wf(),
            spec_half_painted(*old(self), *final(self), x as int, y as int, color),
    {
        if y >= self.pixels.len() || x >= self.width as usize {
            return ;
        }
        let mut row: Vec<Color> = self.pixels[y].clone();
        proof {
            assert forall|i: int| 0 <= i < row@.len() implies row@[i]
                == old(self).pixels@[y as int]@[i] by {
                assert(cloned::<Color>(old(self).pixels@[y as int]@[i], row@[i]));
            }
            assert(row@ =~= old(self).pixels@[y as int]@);
        }
        row.set(x, color);
        self.pixels.set(y, row);
    }

    /// Snapshot the grid as a layer: vertical pixel pairs become half
    /// blocks, with the two colors in the foreground and background.
    pub fn save(&self) -> (r: Layer)
        requires
            self.wf(),
        ensures
            spec_half_layer(*self, r),
    {
        let mut chars: Vec<char> = Vec::new();
        let mut colors: Vec<(Color, Color)> = Vec::new();
        let mut row: usize = 0;
        proof {
            assert(self.width * self.height >= 0) by (nonlinear_arith)
                requires
                    self.width >= 0 && self.height >= 0,
            ;
        }
        while row < self.height as usize
            invariant
                self.wf(),
                row <= self.height as usize,
                chars@.len() == row * self.width,
                colors@.len() == row * self.width,
                forall|rr: int, c: int|
                    0 <= rr < row && 0 <= c < self.width ==> #[trigger] chars@[rr * self.width + c]
                        == spec_half_block_char(
                        self.pixels@[2 * rr]@[c],
                        self.pixels@[2 * rr + 1]@[c],
                    ),
                forall|rr: int, c: int|
                    0 <= rr < row && 0 <= c < self.width ==> #[trigger] colors@[rr * self.width + c]
                        == spec_half_block_colors(
                        self.pixels@[2 * rr]@[c],
                        self.pixels@[2 * rr + 1]@[c],
                    ),
            decreases self.height as usize - row,
        {
            let mut c: usize = 0;
            proof {
                assert((row + 1) * self.width == row * self.width + self.width)
                    by (nonlinear_arith);
                assert(row * self.width <= 0xFFFF * 0xFFFF) by (nonlinear_arith)
                    requires
                        0 <= row <= 0xFFFF && 0 <= self.width <= 0xFFFF,
                ;
            }
            while c < self.width as usize
                invariant
                    self.wf(),
                    row < self.height as usize,
                    c <= self.width as usize,
                    chars@.len() == row * self.width + c,
                    colors@.len() == row * self.width + c,
                    row * self.width <= 0xFFFF * 0xFFFF,
                    forall|rr: int, cc: int|
                        0 <= rr < row && 0 <= cc < self.width ==> #[trigger] chars@[rr * self.width
                            + cc] == spec_half_block_char(
                            self.pixels@[2 * rr]@[cc],
                            self.pixels@[2 * rr + 1]@[cc],
                        ),
                    forall|rr: int, cc: int|
                        0 <= rr < row && 0 <= cc < self.width ==> #[trigger] colors@[rr * self.width
                            + cc] == spec_half_block_colors(
                            self.pixels@[2 * rr]@[cc],
                            self.pixels@[2 * rr + 1]@[cc],
                        ),
                    forall|cc: int|
                        0 <= cc < c ==> #[trigger] chars@[row * self.width + cc]
                            == spec_half_block_char(
                            self.pixels@[2 * row]@[cc],
                            self.pixels@[2 * row + 1]@[cc],
                        ),
                    forall|cc: int|
                        0 <= cc < c ==> #[trigger] colors@[row * self.width + cc]
                            == spec_half_block_colors(
                            self.pixels@[2 * row]@[cc],
                            self.pixels@[2 * row + 1]@[cc],
                        ),
                decreases self.width as usize - c,
            {
                let upper = self.pixels[2 * row][c];
                let lower = self.pixels[2 * row + 1][c];
                let ch: char = if upper == Color::Reset && lower == Color::Reset {
                    ' '
                } else if upper == Color::Reset {
                    '\u{2584}'
                } else if lower == Color::Reset {
                    '\u{2580}'
                } else if upper == lower {
                    '\u{2588}'
                } else {
                    '\u{2580}'
                };
                let pair: (Color, Color) = if upper == Color::Reset && lower == Color::Reset {
                    (Color::Reset, Color::Reset)
                } else if upper == Color::Reset {
                    (lower, Color::Reset)
                } else if lower == Color::Reset {
                    (upper, Color::Reset)
                } else {
                    (upper, lower)
                };
                chars.push(ch);
                colors.push(pair);
                proof {
                    assert forall|rr: int, cc: int|
                        0 <= rr < row && 0 <= cc < self.width implies #[trigger] (rr * self.width
                        + cc) < row * self.width by {
                        assert(rr * self.width + cc < row * self.width) by (nonlinear_arith)
                            requires
                                0 <= rr < row && 0 <= cc < self.width,
                        ;
                    }
                }
                c = c + 1;
            }
            proof {
                assert((row + 1) * self.width == row * self.width + self.width)
                    by (nonlinear_arith);
            }
            row = row + 1;
        }
        proof {
            assert(self.height * self.width == self.width * self.height) by (nonlinear_arith);
        }
        Layer { chars, colors }
    }

    /// Blank the grid again.
    pub fn reset(&mut self)
        requires
            old(self).wf(),
        ensures
            final(self).wf(),
            spec_half_blank(*final(self), old(self).width, old(self).height),
    {
        let fresh = HalfBlockGrid::new(self.width, self.height);
        *self = fresh;
    }
}

/// One of the three grid encodings, chosen by the marker at
/// construction time.
#[derive(Debug, Clone)]
pub enum Grid {
    /// Braille patterns, two by four dots per cell.
    Braille(BrailleGrid),
    /// One character per cell.
    Chars(CharGrid),
    /// Half blocks, one by two pixels per cell.
    HalfBlock(HalfBlockGrid),
}

impl Grid {
    /// The shape invariant of the chosen encoding.
    pub open spec fn wf(self) -> bool {
        match self {
            Grid::Braille(g) => g.wf(),
            Grid::Chars(g) => g.wf(),
            Grid::HalfBlock(g) => g.wf(),
        }
    }

    /// A blank grid of the encoding the marker selects: a character
    /// grid painting bullets, full blocks or half blocks for the three
    /// character markers, a Braille grid or a half-block grid for the
    /// other two.
    pub fn new(width: u16, height: u16, marker: Marker) -> (r: Grid)
        ensures
            r.wf(),
            match marker {
                Marker::Dot => r matches Grid::Chars(g) && spec_char_blank(
                    g,
                    width,
                    height,
                    '\u{2022}',
                ),
                Marker::Block => r matches Grid::Chars(g) && spec_char_blank(
                    g,
                    width,
                    height,
                    '\u{2588}',
                ),
                Marker::Bar => r matches Grid::Chars(g) && spec_char_blank(
                    g,
                    width,
                    height,
                    '\u{2584}',
                ),
                Marker::Braille => r matches Grid::Braille(g) && spec_braille_blank(
                    g,
                    width,
                    height,
                ),
                Marker::HalfBlock => r matches Grid::HalfBlock(g) && spec_half_blank(
                    g,
                    width,
                    height,
                ),
            },
    {
        match marker {
            Marker::Dot => Grid::Chars(CharGrid::new(width, height, crate::symbols::dot_char())),
            Marker::Block => Grid::Chars(
                CharGrid::new(width, height, crate::symbols::block_char()),
            ),
            Marker::Bar => Grid::Chars(
                CharGrid::new(width, height, crate::symbols::lower_half_char()),
            ),
            Marker::Braille => Grid::Braille(BrailleGrid::new(width, height)),
            Marker::HalfBlock => Grid::HalfBlock(HalfBlockGrid::new(width, height)),
        }
    }

    /// The dot resolution of the encoding: two by four dots per cell
    /// for Braille, one by one for characters, one by two for half
    /// blocks.
    pub fn resolution(&self) -> (r: (u32, u32))
        ensures
            match *self {
                Grid::Braille(g) => r.0 == 2 * g.width && r.1 == 4 * g.height,
                Grid::Chars(g) => r.0 == g.width && r.1 == g.height,
                Grid::HalfBlock(g) => r.0 == g.width && r.1 == 2 * g.height,
            },
    {
        match self {
            Grid::Braille(g) => g.resolution(),
            Grid::Chars(g) => g.resolution(),
            Grid::HalfBlock(g) => g.resolution(),
        }
    }

    /// Paint one dot with the chosen encoding's own paint; dots
    /// outside the grid are ignored, and the encoding never changes.
    pub fn paint(&mut self, x: usize, y: usize, color: Color)
        requires
            old(self).wf(),
        ensures
            final(self).wf(),
            *old(self) matches Grid::Braille(g) ==> (*final(self) matches Grid::Braille(g2)
                && spec_braille_painted(g, g2, x as int, y as int, color)),
            *old(self) matches Grid::Chars(g) ==> (*final(self) matches Grid::Chars(g2)
                && spec_char_painted(g, g2, x as int, y as int, color)),
            *old(self) matches Grid::HalfBlock(g) ==> (*final(self) matches Grid::HalfBlock(g2)
                && spec_half_painted(g, g2, x as int, y as int, color)),
    {
        match self {
            Grid::Braille(g) => g.paint(x, y, color),
            Grid::Chars(g) => g.paint(x, y, color),
            Grid::HalfBlock(g) => g.paint(x, y, color),
        }
    }

    /// Snapshot the paint state as a layer, the way the chosen
    /// encoding does.
    pub fn save(&self) -> (r: Layer)
        requires
            self.wf(),
        ensures
            match *self {
                Grid::Braille(g) => spec_braille_layer(g, r),
                Grid::Chars(g) => spec_char_layer(g, r),
                Grid::HalfBlock(g) => spec_half_layer(g, r),
            },
    {
        match self {
            Grid::Braille(g) => g.save(),
            Grid::Chars(g) => g.save(),
            Grid::HalfBlock(g) => g.save(),
        }
    }

    /// Blank the grid again, keeping its encoding and extent.
    pub fn reset(&mut self)
        requires
            old(self).wf(),
        ensures
            final(self).wf(),
            *old(self) matches Grid::Braille(g) ==> (*final(self) matches Grid::Braille(g2)
                && spec_braille_blank(g2, g.width, g.height)),
            *old(self) matches Grid::Chars(g) ==> (*final(self) matches Grid::Chars(g2)
                && spec_char_blank(g2, g.width, g.height, g.cell_char)),
            *old(self) matches Grid::HalfBlock(g) ==> (*final(self) matches Grid::HalfBlock(g2)
                && spec_half_blank(g2, g.width, g.height)),
    {
        match self {
            Grid::Braille(g) => g.reset(),
            Grid::Chars(g) => g.reset(),
            Grid::HalfBlock(g) => g.reset(),
        }
    }
}

} // verus!
