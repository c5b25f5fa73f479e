//! A bordered box with an optional title, wrapped around other widgets.
use vstd::prelude::*;

use crate::buffer::{spec_set, Buffer};
use crate::cell::{spec_default_cell, spec_styled_cell, Cell};
use crate::rect::Rect;
use crate::style::Style;
use crate::text::{spec_line_sized, spec_render_line, Line};

verus! {

/// Which edges of a block get a border line, as a bitset.
#[derive(Debug, Default, Clone, Copy, PartialEq, Eq, Hash, Structural)]
pub struct Borders {
    /// The raw flag bits.
    pub bits: u8,
}

impl Borders {
    /// No border at all.
    pub fn none() -> (r: Borders)
        ensures
            r.bits == 0u8,
    {
        Borders { bits: 0 }
    }

    /// The top edge.
    pub fn top() -> (r: Borders)
        ensures
            r.bits == 1u8,
    {
        Borders { bits: 1 }
    }

    /// The right edge.
    pub fn right() -> (r: Borders)
        ensures
            r.bits == 2u8,
    {
        Borders { bits: 2 }
    }

    /// The bottom edge.
    pub fn bottom() -> (r: Borders)
        ensures
            r.bits == 4u8,
    {
        Borders { bits: 4 }
    }

    /// The left edge.
    pub fn left() -> (r: Borders)
        ensures
            r.bits == 8u8,
    {
        Borders { bits: 8 }
    }

    /// All four edges.
    pub fn all() -> (r: Borders)
        ensures
            r.bits == 15u8,
    {
        Borders { bits: 15 }
    }

    /// Whether every edge of `other` is included.
    pub fn contains(self, other: Borders) -> (r: bool)
        ensures
            r == ((self.bits & other.bits) == other.bits),
    {
        (self.bits & other.bits) == other.bits
    }

    /// The union of the two edge sets.
    pub fn union(self, other: Borders) -> (r: Borders)
        ensures
            r.bits == (self.bits | other.bits),
    {
        Borders { bits: self.bits | other.bits }
    }
}

/// The area a block leaves inside its borders: one column off each
/// bordered vertical edge, one row off the bottom border, and one row
/// off the top when a top border or a title is present.
pub open spec fn spec_block_inner(b: Block, area: Rect) -> Rect {
    let left_in = b.borders.bits & 8 == 8 && area.width > 0;
    let x1 = if left_in && area.x < 0xFFFF {
        (area.x + 1) as u16
    } else {
        area.x
    };
    let w1 = if left_in {
        (area.width - 1) as u16
    } else {
        area.width
    };
    let top_in = (b.borders.bits & 1 == 1 || b.title is Some) && area.height > 0;
    let y1 = if top_in && area.y < 0xFFFF {
        (area.y + 1) as u16
    } else {
        area.y
    };
    let h1 = if top_in {
        (area.height - 1) as u16
    } else {
        area.height
    };
    let w2 = if b.borders.bits & 2 == 2 && w1 > 0 {
        (w1 - 1) as u16
    } else {
        w1
    };
    let h2 = if b.borders.bits & 4 == 4 && h1 > 0 {
        (h1 - 1) as u16
    } else {
        h1
    };
    Rect { x: x1, y: y1, width: w2, height: h2 }
}

/// A box with an optional border on each side and an optional title in
/// the top edge.
#[derive(Debug, Clone)]
pub struct Block {
    /// The title, shown in the top row.
    pub title: Option<Line>,
    /// Which edges carry a border line.
    pub borders: Borders,
    /// The style of the border lines.
    pub border_style: Style,
}

impl Block {
    /// A borderless, untitled block.
    pub fn new() -> (r: Block)
        ensures
            r.title is None,
            r.borders.bits == 0u8,
            r.border_style == Style::spec_new(),
    {
        Block { title: None, borders: Borders::none(), border_style: Style::new() }
    }

    /// Set the title.
    pub fn title(self, title: &str) -> (r: Block)
        ensures
            r.title matches Some(l) && l.spans@.len() == 1 && l.spans@[0].content@ == title@,
            r.borders == self.borders,
            r.border_style == self.border_style,
    {
        Block { title: Some(Line::raw(title)), ..self }
    }

    /// Set which edges carry a border.
    pub fn borders(self, borders: Borders) -> (r: Block)
        ensures
            r.borders == borders,
            r.title == self.title,
            r.border_style == self.border_style,
    {
        Block { borders, ..self }
    }

    /// Set the style of the border lines.
    pub fn border_style(self, style: Style) -> (r: Block)
        ensures
            r.border_style == style,
            r.title == self.title,
            r.borders == self.borders,
    {
        Block { border_style: style, ..self }
    }

    /// The area left inside the borders ([`spec_block_inner`]).
    pub fn inner(&self, area: Rect) -> (r: Rect)
        ensures
            r == spec_block_inner(*self, area),
            r.width <= area.width,
            r.height <= area.height,
            r.x >= area.x,
            r.y >= area.y,
            r.x + r.width <= area.x + area.width,
            r.y + r.height <= area.y + area.height,
    {
        let mut x = area.x;
        let mut y = area.y;
        let mut width = area.width;
        let mut height = area.height;
        if self.borders.contains(Borders::left()) {
            if width > 0 {
                if x < 0xFFFF {
                    x = x + 1;
                }
                width = width - 1;
            }
        }
        if self.borders.contains(Borders::top()) || self.title.is_some() {
            if height > 0 {
                if y < 0xFFFF {
                    y = y + 1;
                }
                height = height - 1;
            }
        }
        if self.borders.contains(Borders::right()) {
            if width > 0 {
                width = width - 1;
            }
        }
        if self.borders.contains(Borders::bottom()) {
            if height > 0 {
                height = height - 1;
            }
        }
        Rect { x, y, width, height }
    }

    /// Draw the border lines, corners and title into `area` of `buf`
    /// ([`spec_block_render`]).
    pub fn render(&self, area: Rect, buf: &mut Buffer)
        requires
            old(buf).well_formed(),
            self.title matches Some(l) ==> spec_line_sized(l),
        ensures
            final(buf).area == old(buf).area,
            final(buf).well_formed(),
            final(buf).content@ == spec_block_render(*self, old(buf).content@, old(buf).area, area),
    {
        if area.width == 0 || area.height == 0 {
            return ;
        }
        let left = area.x;
        let top = area.y;
        let right_in: u16 = if area.x as u32 + area.width as u32 - 1 > 0xFFFF {
            0xFFFF
        } else {
            area.x + (area.width - 1)
        };
        let bottom_in: u16 = if area.y as u32 + area.height as u32 - 1 > 0xFFFF {
            0xFFFF
        } else {
            area.y + (area.height - 1)
        };
        let style = self.border_style;
        let hcell = Cell::styled('\u{2500}', style);
        let vcell = Cell::styled('\u{2502}', style);
        let ghost cells0 = old(buf).content@;
        let ghost ba = old(buf).area;
        let ghost hc = spec_styled_cell(
            Cell { symbol: '\u{2500}', ..spec_default_cell() },
            self.border_style,
        );
        let ghost vc = spec_styled_cell(
            Cell { symbol: '\u{2502}', ..spec_default_cell() },
            self.border_style,
        );
        let ghost ri = right_in as int;
        let ghost bi = bottom_in as int;
        if self.borders.contains(Borders::top()) {
            hrun(buf, top, left, right_in, hcell);
        }
        let ghost c1 = if self.borders.bits & 1 == 1 {
            spec_hrun(cells0, ba, area.y as int, area.x as int, ri, hc)
        } else {
            cells0
        };
        proof {
            assert(buf.content@ == c1);
        }
        if self.borders.contains(Borders::bottom()) {
            hrun(buf, bottom_in, left, right_in, hcell);
        }
        let ghost c2 = if self.borders.bits & 4 == 4 {
            spec_hrun(c1, ba, bi, area.x as int, ri, hc)
        } else {
            c1
        };
        proof {
            assert(buf.content@ == c2);
        }
        if self.borders.contains(Borders::left()) {
            vrun(buf, left, top, bottom_in, vcell);
        }
        let ghost c3 = if self.borders.bits & 8 == 8 {
            spec_vrun(c2, ba, area.x as int, area.y as int, bi, vc)
        } else {
            c2
        };
        proof {
            assert(buf.content@ == c3);
        }
        if self.borders.contains(Borders::right()) {
            vrun(buf, right_in, top, bottom_in, vcell);
        }
        let ghost c4 = if self.borders.bits & 2 == 2 {
            spec_vrun(c3, ba, ri, area.y as int, bi, vc)
        } else {
            c3
        };
        proof {
            assert(buf.content@ == c4);
        }
        let corner_tl = self.borders.contains(Borders::top()) && self.borders.contains(
            Borders::left(),
        );
        let cell_tl = Cell::styled('\u{250C}', style);
        if corner_tl {
            buf.set(left, top, cell_tl);
        }
        let ghost c5 = if self.borders.bits & 1 == 1 && self.borders.bits & 8 == 8 {
            spec_set(
                c4,
                ba,
                area.x as int,
                area.y as int,
                spec_styled_cell(
                    Cell { symbol: '\u{250C}', ..spec_default_cell() },
                    self.border_style,
                ),
            )
        } else {
            c4
        };
        proof {
            assert(buf.content@ == c5);
        }
        if self.borders.contains(Borders::top()) && self.borders.contains(Borders::right()) {
            buf.set(right_in, top, Cell::styled('\u{2510}', style));
        }
        let ghost c6 = if self.borders.bits & 1 == 1 && self.borders.bits & 2 == 2 {
            spec_set(
                c5,
                ba,
                ri,
                area.y as int,
                spec_styled_cell(
                    Cell { symbol: '\u{2510}', ..spec_default_cell() },
                    self.border_style,
                ),
            )
        } else {
            c5
        };
        proof {
            assert(buf.content@ == c6);
        }
        if self.borders.contains(Borders::bottom()) && self.borders.contains(Borders::left()) {
            buf.set(left, bottom_in, Cell::styled('\u{2514}', style));
        }
        let ghost c7 = if self.borders.bits & 4 == 4 && self.borders.bits & 8 == 8 {
            spec_set(
                c6,
                ba,
                area.x as int,
                bi,
                spec_styled_cell(
                    Cell { symbol: '\u{2514}', ..spec_default_cell() },
                    self.border_style,
                ),
            )
        } else {
            c6
        };
        proof {
            assert(buf.content@ == c7);
        }
        if self.borders.contains(Borders::bottom()) && self.borders.contains(Borders::right()) {
            buf.set(right_in, bottom_in, Cell::styled('\u{2518}', style));
        }
        let ghost c8 = if self.borders.bits & 4 == 4 && self.borders.bits & 2 == 2 {
            spec_set(
                c7,
                ba,
                ri,
                bi,
                spec_styled_cell(
                    Cell { symbol: '\u{2518}', ..spec_default_cell() },
                    self.border_style,
                ),
            )
        } else {
            c7
        };
        proof {
            assert(buf.content@ == c8);
        }
        match &self.title {
            Some(line) => {
                let tx: u16 = if self.borders.contains(Borders::left()) && left < 0xFFFF {
                    left + 1
                } else {
                    left
                };
                let budget: u16 = if self.borders.contains(Borders::right()) {
                    if area.width >= 2 {
                        area.width - 2
                    } else {
                        0
                    }
                } else {
                    if area.width >= 1 {
                        area.width - 1
                    } else {
                        0
                    }
                };
                let la = Rect { x: tx, y: top, width: budget, height: 1 };
                line.render(la, buf);
            },
            None => {},
        }
    }
}

/// A run of one border cell written left to right along row `y`, from
/// column `x0` through `x1`.
pub open spec fn spec_hrun(
    cells: Seq<Cell>,
    buf_area: Rect,
    y: int,
    x0: int,
    x1: int,
    cell: Cell,
) -> Seq<Cell>
    decreases x1 + 1 - x0,
{
    if x0 > x1 {
        cells
    } else {
        spec_hrun(spec_set(cells, buf_area, x0, y, cell), buf_area, y, x0 + 1, x1, cell)
    }
}

/// A run of one border cell written top to bottom along column `x`,
/// from row `y0` through `y1`.
pub open spec fn spec_vrun(
    cells: Seq<Cell>,
    buf_area: Rect,
    x: int,
    y0: int,
    y1: int,
    cell: Cell,
) -> Seq<Cell>
    decreases y1 + 1 - y0,
{
    if y0 > y1 {
        cells
    } else {
        spec_vrun(spec_set(cells, buf_area, x, y0, cell), buf_area, x, y0 + 1, y1, cell)
    }
}

/// What rendering a block draws, in order: the top and bottom border
/// rows, the left and right border columns, the corners where two
/// borders meet, and the title in the top row.
pub open spec fn spec_block_render(b: Block, cells: Seq<Cell>, buf_area: Rect, area: Rect) -> Seq<
    Cell,
> {
    if area.width == 0 || area.height == 0 {
        cells
    } else {
        let right_in: int = if area.x + area.width - 1 > 0xFFFF {
            0xFFFF
        } else {
            area.x + area.width - 1
        };
        let bottom_in: int = if area.y + area.height - 1 > 0xFFFF {
            0xFFFF
        } else {
            area.y + area.height - 1
        };
        let hcell = spec_styled_cell(
            Cell { symbol: '\u{2500}', ..spec_default_cell() },
            b.border_style,
        );
        let vcell = spec_styled_cell(
            Cell { symbol: '\u{2502}', ..spec_default_cell() },
            b.border_style,
        );
        let c1 = if b.borders.bits & 1 == 1 {
            spec_hrun(cells, buf_area, area.y as int, area.x as int, right_in, hcell)
        } else {
            cells
        };
        let c2 = if b.borders.bits & 4 == 4 {
            spec_hrun(c1, buf_area, bottom_in, area.x as int, right_in, hcell)
        } else {
            c1
        };
        let c3 = if b.borders.bits & 8 == 8 {
            spec_vrun(c2, buf_area, area.x as int, area.y as int, bottom_in, vcell)
        } else {
            c2
        };
        let c4 = if b.borders.bits & 2 == 2 {
            spec_vrun(c3, buf_area, right_in, area.y as int, bottom_in, vcell)
        } else {
            c3
        };
        let c5 = if b.borders.bits & 1 == 1 && b.borders.bits & 8 == 8 {
            spec_set(
                c4,
                buf_area,
                area.x as int,
                area.y as int,
                spec_styled_cell(Cell { symbol: '\u{250C}', ..spec_default_cell() }, b.border_style),
            )
        } else {
            c4
        };
        let c6 = if b.borders.bits & 1 == 1 && b.borders.bits & 2 == 2 {
            spec_set(
                c5,
                buf_area,
                right_in,
                area.y as int,
                spec_styled_cell(Cell { symbol: '\u{2510}', ..spec_default_cell() }, b.border_style),
            )
        } else {
            c5
        };
        let c7 = if b.borders.bits & 4 == 4 && b.borders.bits & 8 == 8 {
            spec_set(
                c6,
                buf_area,
                area.x as int,
                bottom_in,
                spec_styled_cell(Cell { symbol: '\u{2514}', ..spec_default_cell() }, b.border_style),
            )
        } else {
            c6
        };
        let c8 = if b.borders.bits & 4 == 4 && b.borders.bits & 2 == 2 {
            spec_set(
                c7,
                buf_area,
                right_in,
                bottom_in,
                spec_styled_cell(Cell { symbol: '\u{2518}', ..spec_default_cell() }, b.border_style),
            )
        } else {
            c7
        };
        match b.title {
            Some(line) => {
                let tx: int = if b.borders.bits & 8 == 8 && area.x < 0xFFFF {
                    area.x + 1
                } else {
                    area.x as int
                };
                let budget: int = if b.borders.bits & 2 == 2 {
                    if area.width >= 2 {
                        area.width - 2
                    } else {
                        0
                    }
                } else {
                    if area.width >= 1 {
                        area.width - 1
                    } else {
                        0
                    }
                };
                spec_render_line(
                    c8,
                    buf_area,
                    line,
                    Rect { x: tx as u16, y: area.y, width: budget as u16, height: 1 },
                )
            },
            None => c8,
        }
    }
}

/// Write one border cell along a row, from `x0` through `x1`.
fn hrun(buf: &mut Buffer, y: u16, x0: u16, x1: u16, cell: Cell)
    requires
        old(buf).well_formed(),
        x0 <= x1,
    ensures
        final(buf).area == old(buf).area,
        final(buf).well_formed(),
        final(buf).content@ == spec_hrun(
            old(buf).content@,
            old(buf).area,
            y as int,
            x0 as int,
            x1 as int,
            cell,
        ),
{
    let ghost target = spec_hrun(
        old(buf).content@,
        old(buf).area,
        y as int,
        x0 as int,
        x1 as int,
        cell,
    );
    let mut x = x0;
    while x < x1
        invariant
            buf.area == old(buf).area,
            buf.well_formed(),
            x0 <= x <= x1,
            target == spec_hrun(
                old(buf).content@,
                old(buf).area,
                y as int,
                x0 as int,
                x1 as int,
                cell,
            ),
            spec_hrun(buf.content@, buf.area, y as int, x as int, x1 as int, cell) == target,
        decreases x1 - x,
    {
        buf.set(x, y, cell);
        x = x + 1;
    }
    let ghost cprev = buf.content@;
    buf.set(x1, y, cell);
    proof {
        assert(spec_hrun(cprev, buf.area, y as int, x1 as int, x1 as int, cell) == spec_hrun(
            buf.content@,
            buf.area,
            y as int,
            x1 as int + 1,
            x1 as int,
            cell,
        ));
    }
}

/// Write one border cell along a column, from `y0` through `y1`.
fn vrun(buf: &mut Buffer, x: u16, y0: u16, y1: u16, cell: Cell)
    requires
        old(buf).well_formed(),
        y0 <= y1,
    ensures
        final(buf).area == old(buf).area,
        final(buf).well_formed(),
        final(buf).content@ == spec_vrun(
            old(buf).content@,
            old(buf).area,
            x as int,
            y0 as int,
            y1 as int,
            cell,
        ),
{
    let ghost target = spec_vrun(
        old(buf).content@,
        old(buf).area,
        x as int,
        y0 as int,
        y1 as int,
        cell,
    );
    let mut y = y0;
    while y < y1
        invariant
            buf.area == old(buf).area,
            buf.well_formed(),
            y0 <= y <= y1,
            target == spec_vrun(
                old(buf).content@,
                old(buf).area,
                x as int,
                y0 as int,
                y1 as int,
                cell,
            ),
            spec_vrun(buf.content@, buf.area, x as int, y as int, y1 as int, cell) == target,
        decreases y1 - y,
    {
        buf.set(x, y, cell);
        y = y + 1;
    }
    let ghost cprev = buf.content@;
    buf.set(x, y1, cell);
    proof {
        assert(spec_vrun(cprev, buf.area, x as int, y1 as int, y1 as int, cell) == spec_vrun(
            buf.content@,
            buf.area,
            x as int,
            y1 as int + 1,
            y1 as int,
            cell,
        ));
    }
}

impl PartialEq for Block {
    fn eq(&self, other: &Block) -> (r: bool) {
        let titles = match (&self.title, &other.title) {
            (Some(a), Some(b)) => a.eq(b),
            (None, None) => true,
            _ => false,
        };
        titles && self.borders == other.borders && self.border_style == other.border_style
    }
}

impl vstd::std_specs::cmp::PartialEqSpecImpl for Block {
    open spec fn obeys_eq_spec() -> bool {
        true
    }

    open spec fn eq_spec(&self, other: &Block) -> bool {
        &&& match (self.title, other.title) {
            (Some(a), Some(b)) => crate::text::spec_line_eq(a, b),
            (None, None) => true,
            _ => false,
        }
        &&& self.borders == other.borders
        &&& self.border_style == other.border_style
    }
}

impl Default for Block {
    /// A borderless, untitled block.
    fn default() -> (r: Block)
        ensures
            r.title is None,
            r.borders.bits == 0u8,
            r.border_style == Style::spec_new(),
    {
        Block::new()
    }
}

} // verus!
