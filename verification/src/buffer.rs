//! The in-memory grid of styled cells that widgets render into.
use vstd::prelude::*;

use crate::cell::{
    spec_cell_wide, spec_default_cell, spec_masked_cell, spec_styled_cell, Cell,
};
use crate::position::Position;
use crate::rect::Rect;
use crate::style::Style;

verus! {

/// The number of cells a buffer over `area` holds.
pub open spec fn spec_cell_count(area: Rect) -> int {
    area.width * area.height
}

/// Whether the grid position `(x, y)` lies inside `area`.
pub open spec fn spec_in_area(area: Rect, x: int, y: int) -> bool {
    &&& area.x <= x < area.x + area.width
    &&& area.y <= y < area.y + area.height
}

/// The row-major index of the grid position `(x, y)` of `area`.
pub open spec fn spec_index(area: Rect, x: int, y: int) -> int {
    (y - area.y) * area.width + (x - area.x)
}

/// The column (offset from the area's left edge) of row-major index `i`.
pub open spec fn spec_col(area: Rect, i: int) -> int {
    i % (area.width as int)
}

/// Writing one cell at `(x, y)`: out-of-area writes are dropped; a wide
/// glyph also masks the cell to its right (and is dropped entirely when
/// that cell would fall outside); overwriting a wide glyph clears its
/// stale masked companion, and overwriting the hidden half of a wide
/// glyph clears that glyph.
pub open spec fn spec_set(cells: Seq<Cell>, area: Rect, x: int, y: int, cell: Cell) -> Seq<Cell> {
    if !spec_in_area(area, x, y) {
        cells
    } else {
        let i = spec_index(area, x, y);
        let c0 = if i - 1 >= 0 && x - 1 >= area.x && spec_cell_wide(cells[i - 1]) {
            cells.update(i - 1, spec_default_cell())
        } else {
            cells
        };
        if spec_cell_wide(cell) {
            if x + 1 >= area.x + area.width {
                cells
            } else {
                let c1 = c0.update(i, cell).update(i + 1, spec_masked_cell());
                if i + 2 < cells.len() && x + 2 < area.x + area.width && spec_cell_wide(
                    cells[i + 1],
                ) {
                    c1.update(i + 2, spec_default_cell())
                } else {
                    c1
                }
            }
        } else {
            let c1 = c0.update(i, cell);
            if i + 1 < cells.len() && x + 1 < area.x + area.width && spec_cell_wide(cells[i]) {
                c1.update(i + 1, spec_default_cell())
            } else {
                c1
            }
        }
    }
}

/// Applying a style patch to every cell of `cells` whose position lies
/// in `region`. Cells masked by a wide glyph keep their blank state:
/// their appearance belongs to the glyph that hides them.
pub open spec fn spec_set_style(cells: Seq<Cell>, area: Rect, region: Rect, style: Style) -> Seq<
    Cell,
> {
    Seq::new(
        cells.len(),
        |i: int|
            if area.width > 0 && !cells[i].skip && spec_in_area(
                region,
                area.x + i % (area.width as int),
                area.y + i / (area.width as int),
            ) {
                spec_styled_cell(cells[i], style)
            } else {
                cells[i]
            },
    )
}

/// The first `si` cells of `src` overlaid onto `dst`, cell by cell, with
/// `at` as the top-left corner of the overlay; blank cells of `src` are
/// transparent.
pub open spec fn spec_merge_at(
    dst: Seq<Cell>,
    dst_area: Rect,
    src: Seq<Cell>,
    src_area: Rect,
    at: Position,
    si: int,
) -> Seq<Cell>
    decreases si,
{
    if si <= 0 || src_area.width == 0 {
        dst
    } else {
        let prev = spec_merge_at(dst, dst_area, src, src_area, at, si - 1);
        let j = si - 1;
        let cell = src[j];
        if cell == spec_default_cell() {
            prev
        } else {
            let tx = at.x + j % (src_area.width as int);
            let ty = at.y + j / (src_area.width as int);
            if spec_in_area(dst_area, tx, ty) {
                prev.update(spec_index(dst_area, tx, ty), cell)
            } else {
                prev
            }
        }
    }
}

/// A rectangular grid of styled cells, stored row-major.
///
/// The cell count always equals `area.width * area.height`
/// ([`Buffer::well_formed`]); all write operations keep it so. Writes
/// aimed outside `area` are dropped silently: widgets may compute
/// candidate coordinates slightly outside a clipped region without
/// checking bounds themselves.
#[derive(Debug, Clone)]
pub struct Buffer {
    /// The region of the terminal this buffer addresses.
    pub area: Rect,
    /// The cells, row by row from the top.
    pub content: Vec<Cell>,
}

impl Buffer {
    /// The basic shape invariant: one cell per grid position.
    pub open spec fn well_formed(self) -> bool {
        self.content@.len() == spec_cell_count(self.area)
    }

    /// A buffer over `area` with every cell blank.
    pub fn empty(area: Rect) -> (r: Buffer)
        ensures
            r.area == area,
            r.well_formed(),
            forall|i: int| 0 <= i < r.content@.len() ==> #[trigger] r.content@[i] == spec_default_cell(),
    {
        Buffer::filled(area, &Cell::empty())
    }

    /// A buffer over `area` with every cell a copy of `cell`.
    pub fn filled(area: Rect, cell: &Cell) -> (r: Buffer)
        ensures
            r.area == area,
            r.well_formed(),
            forall|i: int| 0 <= i < r.content@.len() ==> #[trigger] r.content@[i] == *cell,
    {
        proof {
            assert(area.width * area.height <= 0xFFFF * 0xFFFF) by (nonlinear_arith)
                requires
                    area.width <= 0xFFFF && area.height <= 0xFFFF,
            ;
            assert(area.width * area.height >= 0) by (nonlinear_arith)
                requires
                    area.width >= 0 && area.height >= 0,
            ;
        }
        let count: usize = (area.width as usize) * (area.height as usize);
        let mut content: Vec<Cell> = Vec::new();
        let mut i: usize = 0;
        while i < count
            invariant
                i <= count,
                content@.len() == i,
                forall|j: int| 0 <= j < i ==> #[trigger] content@[j] == *cell,
            decreases count - i,
        {
            content.push(*cell);
            i = i + 1;
        }
        Buffer { area, content }
    }

    /// The row-major index of the in-area position `(x, y)`.
    pub fn index_of(&self, x: u16, y: u16) -> (r: usize)
        requires
            self.well_formed(),
            spec_in_area(self.area, x as int, y as int),
        ensures
            r as int == spec_index(self.area, x as int, y as int),
            r < self.content@.len(),
    {
        proof {
            lemma_index_bounds(self.area, x as int, y as int);
        }
        ((y - self.area.y) as usize) * (self.area.width as usize) + ((x - self.area.x) as usize)
    }

    /// A read of the cell at the in-area position `(x, y)`.
    pub fn get(&self, x: u16, y: u16) -> (r: &Cell)
        requires
            self.well_formed(),
            spec_in_area(self.area, x as int, y as int),
        ensures
            *r == self.content@[spec_index(self.area, x as int, y as int)],
    {
        let i = self.index_of(x, y);
        &self.content[i]
    }

    /// Write one cell at `(x, y)`, with the wide-glyph discipline of
    /// [`spec_set`]: a wide glyph masks its right neighbor, and
    /// overwriting a wide glyph clears its stale companion.
    pub fn set(&mut self, x: u16, y: u16, cell: Cell)
        requires
            old(self).well_formed(),
        ensures
            final(self).area == old(self).area,
            final(self).well_formed(),
            final(self).content@ == spec_set(
                old(self).content@,
                old(self).area,
                x as int,
                y as int,
                cell,
            ),
            !cell.skip && crate::diff::spec_grid_wf(old(self).content@, old(self).area)
                ==> crate::diff::spec_grid_wf(final(self).content@, old(self).area),
    {
        proof {
            if !cell.skip && crate::diff::spec_grid_wf(self.content@, self.area) {
                crate::diff::lemma_set_preserves_grid_wf(
                    self.content@,
                    self.area,
                    x as int,
                    y as int,
                    cell,
                );
            }
        }
        let area = self.area;
        let in_area = x >= area.x && (x as u32) < area.x as u32 + area.width as u32 && y >= area.y
            && (y as u32) < area.y as u32 + area.height as u32;
        if !in_area {
            return ;
        }
        proof {
            lemma_index_bounds(area, x as int, y as int);
        }
        let i: usize = ((y - area.y) as usize) * (area.width as usize) + ((x - area.x) as usize);
        let wide_write = cell.is_wide();
        if wide_write && (x as u32) + 1 >= area.x as u32 + area.width as u32 {
            return ;
        }
        if i >= 1 && x > area.x && self.content[i - 1].is_wide() {
            self.content.set(i - 1, Cell::empty());
        }
        if wide_write {
            proof {
                lemma_index_bounds(area, x as int + 1, y as int);
            }
            let stale = self.content[i + 1].is_wide();
            self.content.set(i, cell);
            self.content.set(i + 1, Cell::masked());
            if stale && i + 2 < self.content.len() && (x as u32) + 2 < area.x as u32
                + area.width as u32 {
                self.content.set(i + 2, Cell::empty());
            }
        } else {
            let was_wide = self.content[i].is_wide();
            self.content.set(i, cell);
            if was_wide && i + 1 < self.content.len() && (x as u32) + 1 < area.x as u32
                + area.width as u32 {
                self.content.set(i + 1, Cell::empty());
            }
        }
    }

    /// Apply a style patch to every cell in the part of `region` that
    /// lies inside the buffer.
    pub fn set_style(&mut self, region: Rect, style: Style)
        requires
            old(self).well_formed(),
        ensures
            final(self).area == old(self).area,
            final(self).well_formed(),
            final(self).content@ == spec_set_style(
                old(self).content@,
                old(self).area,
                region,
                style,
            ),
            crate::diff::spec_grid_wf(old(self).content@, old(self).area)
                ==> crate::diff::spec_grid_wf(final(self).content@, old(self).area),
    {
        proof {
            if crate::diff::spec_grid_wf(self.content@, self.area) {
                crate::diff::lemma_set_style_preserves_grid_wf(
                    self.content@,
                    self.area,
                    region,
                    style,
                );
            }
        }
        let ghost cells0 = self.content@;
        let area = self.area;
        if area.width == 0 {
            proof {
                assert(self.content@ =~= spec_set_style(cells0, area, region, style));
            }
            return ;
        }
        let mut i: usize = 0;
        let n = self.content.len();
        while i < n
            invariant
                self.area == area,
                area.width > 0,
                self.content@.len() == n,
                cells0.len() == n,
                n == spec_cell_count(area),
                i <= n,
                forall|j: int|
                    0 <= j < i ==> #[trigger] self.content@[j] == spec_set_style(
                        cells0,
                        area,
                        region,
                        style,
                    )[j],
                forall|j: int| i <= j < n ==> #[trigger] self.content@[j] == cells0[j],
            decreases n - i,
        {
            proof {
                lemma_pos_bounds(area, i as int);
            }
            let cx: u32 = area.x as u32 + (i % (area.width as usize)) as u32;
            let cy: u32 = area.y as u32 + (i / (area.width as usize)) as u32;
            let inside = cx >= region.x as u32 && cx < region.x as u32 + region.width as u32 && cy
                >= region.y as u32 && cy < region.y as u32 + region.height as u32;
            if inside && !self.content[i].skip {
                let mut c = self.content[i];
                c.apply_style(style);
                self.content.set(i, c);
            }
            i = i + 1;
        }
        proof {
            assert(self.content@ =~= spec_set_style(cells0, area, region, style));
        }
    }

    /// Overlay `other` onto this buffer cell by cell, with `at` as the
    /// top-left corner of the overlay. Blank cells of `other` are
    /// transparent; all other cells, masked halves included, are copied
    /// as they are.
    pub fn merge(&mut self, other: &Buffer, at: Position)
        requires
            old(self).well_formed(),
            other.well_formed(),
        ensures
            final(self).area == old(self).area,
            final(self).well_formed(),
            final(self).content@ == spec_merge_at(
                old(self).content@,
                old(self).area,
                other.content@,
                other.area,
                at,
                other.content@.len() as int,
            ),
    {
        let ghost dst0 = self.content@;
        let area = self.area;
        if other.area.width == 0 {
            proof {
                assert(spec_merge_at(dst0, area, other.content@, other.area, at, other.content@.len() as int)
                    == dst0) by {
                    lemma_merge_zero_width(dst0, area, other.content@, other.area, at, other.content@.len() as int);
                }
            }
            return ;
        }
        let mut si: usize = 0;
        let n = other.content.len();
        let blank = Cell::empty();
        while si < n
            invariant
                self.area == area,
                self.content@.len() == spec_cell_count(area),
                other.well_formed(),
                other.area.width > 0,
                n == other.content@.len(),
                blank == spec_default_cell(),
                si <= n,
                self.content@ == spec_merge_at(dst0, area, other.content@, other.area, at, si as int),
            decreases n - si,
        {
            let cell = other.content[si];
            if !(cell == blank) {
                proof {
                    lemma_pos_bounds(other.area, si as int);
                }
                let cx: u32 = at.x as u32 + (si % (other.area.width as usize)) as u32;
                let cy: u32 = at.y as u32 + (si / (other.area.width as usize)) as u32;
                let inside = cx >= area.x as u32 && cx < area.x as u32 + area.width as u32 && cy
                    >= area.y as u32 && cy < area.y as u32 + area.height as u32;
                if inside {
                    proof {
                        lemma_index_bounds(area, cx as int, cy as int);
                    }
                    let ti: usize = ((cy - area.y as u32) as usize) * (area.width as usize) + ((cx
                        - area.x as u32) as usize);
                    self.content.set(ti, cell);
                }
            }
            si = si + 1;
        }
    }
}

/// Writing a run of characters from `(x, y)` rightward: characters are
/// written one cell each (two for wide glyphs, none for zero-width
/// characters) while they fit the width budget and the coordinate
/// range.
pub open spec fn spec_set_string(
    cells: Seq<Cell>,
    area: Rect,
    x: int,
    y: int,
    s: Seq<char>,
    budget: int,
    style: Style,
) -> Seq<Cell>
    decreases s.len(),
{
    if s.len() == 0 {
        cells
    } else {
        let w = crate::text::spec_eff_width(s[0]);
        if w == 0 {
            spec_set_string(cells, area, x, y, s.drop_first(), budget, style)
        } else if w > budget || x + w > 0xFFFF {
            cells
        } else {
            spec_set_string(
                spec_set(
                    cells,
                    area,
                    x,
                    y,
                    spec_styled_cell(Cell { symbol: s[0], ..spec_default_cell() }, style),
                ),
                area,
                x + w,
                y,
                s.drop_first(),
                budget - w,
                style,
            )
        }
    }
}

impl Buffer {
    /// Write the characters of `s` from `(x, y)` rightward, in the given
    /// style, using at most `max_width` columns. Wide glyphs take two
    /// columns and mask their right neighbor; writes beyond the buffer
    /// are dropped.
    pub fn set_stringn(&mut self, x: u16, y: u16, s: &str, max_width: usize, style: Style)
        requires
            old(self).well_formed(),
            s@.len() <= 0x3FFF_FFFF,
        ensures
            final(self).area == old(self).area,
            final(self).well_formed(),
            final(self).content@ == spec_set_string(
                old(self).content@,
                old(self).area,
                x as int,
                y as int,
                s@,
                max_width as int,
                style,
            ),
            crate::diff::spec_grid_wf(old(self).content@, old(self).area)
                ==> crate::diff::spec_grid_wf(final(self).content@, old(self).area),
    {
        proof {
            if crate::diff::spec_grid_wf(self.content@, self.area) {
                crate::diff::lemma_set_string_preserves_grid_wf(
                    self.content@,
                    self.area,
                    x as int,
                    y as int,
                    s@,
                    max_width as int,
                    style,
                );
            }
        }
        let ghost target = spec_set_string(
            old(self).content@,
            old(self).area,
            x as int,
            y as int,
            s@,
            max_width as int,
            style,
        );
        let n = s.unicode_len();
        let mut i: usize = 0;
        let mut cx: u16 = x;
        let mut budget: usize = max_width;
        proof {
            assert(s@.skip(0) =~= s@);
        }
        while i < n
            invariant
                self.area == old(self).area,
                self.well_formed(),
                s@.len() == n,
                n <= 0x3FFF_FFFF,
                i <= n,
                budget <= max_width,
                target == spec_set_string(
                    old(self).content@,
                    old(self).area,
                    x as int,
                    y as int,
                    s@,
                    max_width as int,
                    style,
                ),
                spec_set_string(
                    self.content@,
                    self.area,
                    cx as int,
                    y as int,
                    s@.skip(i as int),
                    budget as int,
                    style,
                ) == target,
                crate::diff::spec_grid_wf(old(self).content@, old(self).area)
                    ==> crate::diff::spec_grid_wf(target, old(self).area),
            decreases n - i,
        {
            let c = s.get_char(i);
            proof {
                assert(s@.skip(i as int)[0] == c);
                assert(s@.skip(i as int).drop_first() =~= s@.skip(i as int + 1));
            }
            let w = crate::text::eff_width(c);
            if w == 0 {
                i = i + 1;
                continue ;
            }
            if w > budget || (cx as usize) + w > 0xFFFF {
                proof {
                    assert(s@.skip(i as int).len() > 0);
                    assert(crate::text::spec_eff_width(s@.skip(i as int)[0]) == w as int);
                    assert(spec_set_string(
                        self.content@,
                        self.area,
                        cx as int,
                        y as int,
                        s@.skip(i as int),
                        budget as int,
                        style,
                    ) == self.content@);
                    assert(self.content@ == target);
                }
                return ;
            }
            self.set(cx, y, Cell::styled(c, style));
            cx = cx + (w as u16);
            budget = budget - w;
            i = i + 1;
        }
        proof {
            assert(s@.skip(n as int) =~= Seq::<char>::empty());
        }
    }

    /// Write the characters of `s` from `(x, y)` rightward with no
    /// budget beyond the coordinate range.
    pub fn set_string(&mut self, x: u16, y: u16, s: &str, style: Style)
        requires
            old(self).well_formed(),
            s@.len() <= 0x3FFF_FFFF,
        ensures
            final(self).area == old(self).area,
            final(self).well_formed(),
            final(self).content@ == spec_set_string(
                old(self).content@,
                old(self).area,
                x as int,
                y as int,
                s@,
                0x1_0000,
                style,
            ),
            crate::diff::spec_grid_wf(old(self).content@, old(self).area)
                ==> crate::diff::spec_grid_wf(final(self).content@, old(self).area),
    {
        self.set_stringn(x, y, s, 0x1_0000, style)
    }
}

impl PartialEq for Buffer {
    fn eq(&self, other: &Buffer) -> (r: bool) {
        if !(self.area == other.area) || self.content.len() != other.content.len() {
            return false;
        }
        let mut i: usize = 0;
        while i < self.content.len()
            invariant
                self.content@.len() == other.content@.len(),
                i <= self.content@.len(),
                forall|j: int| 0 <= j < i ==> #[trigger] self.content@[j] == other.content@[j],
            decreases self.content@.len() - i,
        {
            if !(self.content[i] == other.content[i]) {
                return false;
            }
            i = i + 1;
        }
        true
    }
}

impl vstd::std_specs::cmp::PartialEqSpecImpl for Buffer {
    open spec fn obeys_eq_spec() -> bool {
        true
    }

    open spec fn eq_spec(&self, other: &Buffer) -> bool {
        self.area == other.area && self.content@ =~= other.content@
    }
}

/// A run of blank cells.
pub open spec fn spec_blank_cells(n: int) -> Seq<Cell> {
    Seq::new(n as nat, |i: int| spec_default_cell())
}

impl Buffer {
    /// A buffer just large enough for the given lines, with each line
    /// rendered into one row.
    pub fn with_lines(lines: Vec<crate::text::Line>) -> (r: Buffer)
        requires
            lines@.len() <= 0xFFFF,
            forall|i: int|
                0 <= i < lines@.len() ==> crate::text::spec_line_sized(#[trigger] lines@[i]),
        ensures
            r.well_formed(),
            r.area.x == 0u16 && r.area.y == 0u16,
            r.area.height == lines@.len(),
            r.content@ == crate::text::spec_render_text_from(
                spec_blank_cells(spec_cell_count(r.area)),
                r.area,
                None,
                r.area,
                lines@,
                0,
            ),
            crate::diff::spec_grid_wf(r.content@, r.area),
    {
        let mut w: usize = 0;
        let mut i: usize = 0;
        while i < lines.len()
            invariant
                lines@.len() <= 0xFFFF,
                forall|j: int|
                    0 <= j < lines@.len() ==> crate::text::spec_line_sized(#[trigger] lines@[j]),
                i <= lines@.len(),
                w <= 0x7FFE_0000,
            decreases lines@.len() - i,
        {
            let lw = lines[i].width();
            if lw > w {
                w = lw;
            }
            i = i + 1;
        }
        let width: u16 = if w > 0xFFFF {
            0xFFFF
        } else {
            w as u16
        };
        let area = Rect { x: 0, y: 0, width, height: lines.len() as u16 };
        let mut buf = Buffer::empty(area);
        proof {
            assert(buf.content@ =~= spec_blank_cells(spec_cell_count(area)));
            crate::diff::lemma_empty_grid_wf(buf.content@, area);
        }
        let ghost target = crate::text::spec_render_text_from(
            buf.content@,
            area,
            None,
            area,
            lines@,
            0,
        );
        let mut i: usize = 0;
        while i < lines.len()
            invariant
                lines@.len() <= 0xFFFF,
                forall|j: int|
                    0 <= j < lines@.len() ==> crate::text::spec_line_sized(#[trigger] lines@[j]),
                i <= lines@.len(),
                buf.area == area,
                area.x == 0u16,
                area.y == 0u16,
                area.height == lines@.len(),
                buf.well_formed(),
                target == crate::text::spec_render_text_from(
                    spec_blank_cells(spec_cell_count(area)),
                    area,
                    None,
                    area,
                    lines@,
                    0,
                ),
                crate::text::spec_render_text_from(
                    buf.content@,
                    area,
                    None,
                    area,
                    lines@,
                    i as int,
                ) == target,
                crate::diff::spec_grid_wf(buf.content@, area),
            decreases lines@.len() - i,
        {
            let la = Rect { x: 0, y: i as u16, width: area.width, height: 1 };
            proof {
                let line = lines@[i as int];
                let lw = crate::solver::sum_int(crate::text::spec_spans_widths(line.spans@));
                let tx_off: int = if line.alignment is None {
                    0
                } else {
                    0
                };
                assert(la == (Rect {
                    x: (area.x + tx_off) as u16,
                    y: (area.y + i) as u16,
                    width: (area.width - tx_off) as u16,
                    height: 1u16,
                }));
                assert(crate::text::spec_render_text_from(buf.content@, area, None, area, lines@, i as int)
                    == crate::text::spec_render_text_from(
                    crate::text::spec_render_line(buf.content@, area, line, la),
                    area,
                    None,
                    area,
                    lines@,
                    i as int + 1,
                ));
            }
            lines[i].render(la, &mut buf);
            i = i + 1;
        }
        buf
    }
}

/// An in-area position has an index inside the cell array.
pub proof fn lemma_index_bounds(area: Rect, x: int, y: int)
    requires
        spec_in_area(area, x, y),
    ensures
        0 <= spec_index(area, x, y) < spec_cell_count(area),
        spec_index(area, x, y) == (y - area.y) * area.width + (x - area.x),
        spec_col(area, spec_index(area, x, y)) == x - area.x,
        spec_index(area, x, y) / (area.width as int) == y - area.y,
        spec_cell_count(area) <= 0xFFFF * 0xFFFF,
        (y - area.y) * area.width >= 0,
{
    let w = area.width as int;
    let h = area.height as int;
    let r = y - area.y;
    let c = x - area.x;
    assert(0 <= r * w + c < h * w && r * w >= 0) by (nonlinear_arith)
        requires
            0 <= c < w && 0 <= r < h,
    ;
    assert((r * w + c) % w == c && (r * w + c) / w == r) by (nonlinear_arith)
        requires
            0 <= c < w && 0 <= r,
    ;
    assert(h * w == w * h) by (nonlinear_arith);
    assert(w * h <= 0xFFFF * 0xFFFF) by (nonlinear_arith)
        requires
            0 <= w <= 0xFFFF && 0 <= h <= 0xFFFF,
    ;
}

/// An index inside the cell array names an in-area position.
pub proof fn lemma_pos_bounds(area: Rect, i: int)
    requires
        0 <= i < spec_cell_count(area),
        area.width > 0,
    ensures
        spec_in_area(area, area.x + i % (area.width as int), area.y + i / (area.width as int)),
        spec_index(area, area.x + i % (area.width as int), area.y + i / (area.width as int)) == i,
{
    let w = area.width as int;
    let h = area.height as int;
    assert(0 <= i % w < w && 0 <= i / w < h && (i / w) * w + i % w == i) by (nonlinear_arith)
        requires
            0 <= i < w * h && w > 0 && h >= 0,
    ;
}

/// Merging from a zero-width source changes nothing.
proof fn lemma_merge_zero_width(
    dst: Seq<Cell>,
    dst_area: Rect,
    src: Seq<Cell>,
    src_area: Rect,
    at: Position,
    si: int,
)
    requires
        src_area.width == 0,
    ensures
        spec_merge_at(dst, dst_area, src, src_area, at, si) == dst,
    decreases si,
{
    if si > 0 {
        lemma_merge_zero_width(dst, dst_area, src, src_area, at, si - 1);
    }
}

} // verus!
