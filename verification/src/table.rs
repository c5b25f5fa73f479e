//! A widget showing rows of cells in aligned columns, with an optional
//! header, footer, selection column and wrapping block.
use vstd::prelude::*;

use crate::block::Block;
use crate::buffer::Buffer;
use crate::constraint::{all_valid, Axis, Constraint, Flex};
use crate::rect::Rect;
use crate::solver::{lemma_solve_coverage, solve, spec_solve};
use crate::style::Style;
use crate::text::{spec_line_sized, spec_text_eq, spec_text_sized, Text};

verus! {

/// When the selection column is allocated.
#[derive(Debug, Default, Clone, Copy, PartialEq, Eq, Hash, Structural)]
pub enum HighlightSpacing {
    /// Always, whether or not a row is selected.
    Always,
    /// Only while a row is selected. The default.
    #[default]
    WhenSelected,
    /// Never; the highlight symbol is never drawn.
    Never,
}

impl HighlightSpacing {
    /// Whether the selection column is allocated, given whether a row
    /// is selected.
    pub fn should_add(&self, has_selection: bool) -> (r: bool)
        ensures
            r == match *self {
                HighlightSpacing::Always => true,
                HighlightSpacing::WhenSelected => has_selection,
                HighlightSpacing::Never => false,
            },
    {
        match self {
            HighlightSpacing::Always => true,
            HighlightSpacing::WhenSelected => has_selection,
            HighlightSpacing::Never => false,
        }
    }
}

/// How space beyond the column constraints is distributed.
#[derive(Debug, Default, Clone, Copy, PartialEq, Eq, Hash, Structural)]
pub enum SegmentSize {
    /// Leftover space stays unused. The default.
    #[default]
    Unchanged,
    /// The last column takes the leftover space.
    LastTakesRemainder,
    /// Every column grows by an equal share.
    EvenDistribution,
}

/// The flex mode a segment-size policy stands for.
pub open spec fn spec_segment_flex(s: SegmentSize) -> Flex {
    match s {
        SegmentSize::Unchanged => Flex::Start,
        SegmentSize::LastTakesRemainder => Flex::Legacy,
        SegmentSize::EvenDistribution => Flex::Legacy,
    }
}

/// The scroll offset and selection of a table.
#[derive(Debug, Default, Clone, Copy, PartialEq, Eq, Hash, Structural)]
pub struct TableState {
    /// The index of the first row shown.
    pub offset: usize,
    /// The selected row, if any.
    pub selected: Option<usize>,
}

impl TableState {
    /// A state with no offset and no selection.
    pub fn new() -> (r: TableState)
        ensures
            r.offset == 0,
            r.selected is None,
    {
        TableState { offset: 0, selected: None }
    }

    /// This state with the given selection.
    pub fn with_selected(self, selected: Option<usize>) -> (r: TableState)
        ensures
            r.offset == self.offset,
            r.selected == selected,
    {
        TableState { selected, ..self }
    }

    /// The selected row, if any.
    pub fn selected(&self) -> (r: Option<usize>)
        ensures
            r == self.selected,
    {
        self.selected
    }
}

/// One cell of a table: a block of text with a style of its own.
#[derive(Debug, Clone)]
pub struct Cell {
    /// The text shown in the cell.
    pub content: Text,
    /// The style laid under the text's own.
    pub style: Style,
}

impl Cell {
    /// A cell showing unstyled text.
    pub fn raw(content: &str) -> (r: Cell)
        requires
            content@.len() <= 0x3FFF_FFFF,
        ensures
            r.style == Style::spec_new(),
    {
        Cell { content: Text::raw(content), style: Style::new() }
    }

    /// A cell showing the given text block.
    pub fn from_text(content: Text) -> (r: Cell)
        ensures
            r.content == content,
            r.style == Style::spec_new(),
    {
        Cell { content, style: Style::new() }
    }

    /// Set the cell's own style.
    pub fn style(self, style: Style) -> (r: Cell)
        ensures
            r.content == self.content,
            r.style == style,
    {
        Cell { style, ..self }
    }
}

impl PartialEq for Cell {
    fn eq(&self, other: &Cell) -> (r: bool) {
        self.content.eq(&other.content) && self.style == other.style
    }
}

impl vstd::std_specs::cmp::PartialEqSpecImpl for Cell {
    open spec fn obeys_eq_spec() -> bool {
        true
    }

    open spec fn eq_spec(&self, other: &Cell) -> bool {
        spec_cell_eq(*self, *other)
    }
}

/// Table-cell equality at the spec level.
pub open spec fn spec_cell_eq(a: Cell, b: Cell) -> bool {
    &&& spec_text_eq(a.content, b.content)
    &&& a.style == b.style
}

/// One row of a table.
#[derive(Debug, Clone)]
pub struct Row {
    /// The cells of the row, one per column.
    pub cells: Vec<Cell>,
    /// The number of text rows the row takes.
    pub height: u16,
    /// Blank rows above.
    pub top_margin: u16,
    /// Blank rows below.
    pub bottom_margin: u16,
    /// The style laid under the cells' own.
    pub style: Style,
}

impl Row {
    /// A row of the given cells, one text row high.
    pub fn new(cells: Vec<Cell>) -> (r: Row)
        ensures
            r.cells == cells,
            r.height == 1u16,
            r.top_margin == 0u16,
            r.bottom_margin == 0u16,
            r.style == Style::spec_new(),
    {
        Row { cells, height: 1, top_margin: 0, bottom_margin: 0, style: Style::new() }
    }

    /// A row of unstyled single-string cells.
    pub fn from_strs(cells: Vec<&str>) -> (r: Row)
        requires
            forall|i: int| 0 <= i < cells@.len() ==> (#[trigger] cells@[i])@.len() <= 0x3FFF_FFFF,
        ensures
            r.cells@.len() == cells@.len(),
            r.height == 1u16,
            r.top_margin == 0u16,
            r.bottom_margin == 0u16,
            r.style == Style::spec_new(),
    {
        let mut out: Vec<Cell> = Vec::new();
        let mut i: usize = 0;
        while i < cells.len()
            invariant
                forall|j: int|
                    0 <= j < cells@.len() ==> (#[trigger] cells@[j])@.len() <= 0x3FFF_FFFF,
                i <= cells@.len(),
                out@.len() == i,
            decreases cells@.len() - i,
        {
            out.push(Cell::raw(cells[i]));
            i = i + 1;
        }
        Row { cells: out, height: 1, top_margin: 0, bottom_margin: 0, style: Style::new() }
    }

    /// Set the row's height in text rows.
    pub fn height(self, height: u16) -> (r: Row)
        ensures
            r == (Row { height, ..self }),
    {
        Row { height, ..self }
    }

    /// Set the blank space above the row.
    pub fn top_margin(self, margin: u16) -> (r: Row)
        ensures
            r == (Row { top_margin: margin, ..self }),
    {
        Row { top_margin: margin, ..self }
    }

    /// Set the blank space below the row.
    pub fn bottom_margin(self, margin: u16) -> (r: Row)
        ensures
            r == (Row { bottom_margin: margin, ..self }),
    {
        Row { bottom_margin: margin, ..self }
    }

    /// Set the row's base style.
    pub fn style(self, style: Style) -> (r: Row)
        ensures
            r == (Row { style, ..self }),
    {
        Row { style, ..self }
    }

    /// The rows the row takes together with its margins, capped at the
    /// largest extent.
    pub fn height_with_margin(&self) -> (r: u16)
        ensures
            r as int == spec_height_with_margin(*self),
    {
        let total: u32 = self.height as u32 + self.top_margin as u32 + self.bottom_margin as u32;
        if total > 0xFFFF {
            0xFFFF
        } else {
            total as u16
        }
    }
}

/// The rows a row takes with its margins, capped.
pub open spec fn spec_height_with_margin(r: Row) -> int {
    let total = r.height + r.top_margin + r.bottom_margin;
    if total > 0xFFFF {
        0xFFFF
    } else {
        total
    }
}

impl PartialEq for Row {
    fn eq(&self, other: &Row) -> (r: bool) {
        if self.cells.len() != other.cells.len() || self.height != other.height
            || self.top_margin != other.top_margin || self.bottom_margin != other.bottom_margin
            || !(self.style == other.style) {
            return false;
        }
        let mut i: usize = 0;
        while i < self.cells.len()
            invariant
                self.cells@.len() == other.cells@.len(),
                i <= self.cells@.len(),
                forall|j: int|
                    0 <= j < i ==> spec_cell_eq(#[trigger] self.cells@[j], other.cells@[j]),
            decreases self.cells@.len() - i,
        {
            if !(self.cells[i].eq(&other.cells[i])) {
                return false;
            }
            i = i + 1;
        }
        true
    }
}

impl vstd::std_specs::cmp::PartialEqSpecImpl for Row {
    open spec fn obeys_eq_spec() -> bool {
        true
    }

    open spec fn eq_spec(&self, other: &Row) -> bool {
        &&& self.cells@.len() == other.cells@.len()
        &&& self.height == other.height
        &&& self.top_margin == other.top_margin
        &&& self.bottom_margin == other.bottom_margin
        &&& self.style == other.style
        &&& forall|j: int|
            0 <= j < self.cells@.len() ==> spec_cell_eq(#[trigger] self.cells@[j], other.cells@[j])
    }
}

/// Whether every `Percentage` constraint stays within 100. Percentages
/// above 100 cannot be satisfied and are rejected wherever a constraint
/// list enters a table.
pub fn ensure_percentages_less_than_100(widths: &Vec<Constraint>) -> (r: bool)
    ensures
        r == spec_percentages_ok(widths@),
{
    let mut i: usize = 0;
    while i < widths.len()
        invariant
            i <= widths@.len(),
            forall|j: int|
                0 <= j < i ==> !(#[trigger] widths@[j] matches Constraint::Percentage(p) && p
                    > 100),
        decreases widths@.len() - i,
    {
        match widths[i] {
            Constraint::Percentage(p) => {
                if p > 100 {
                    return false;
                }
            },
            _ => {},
        }
        i = i + 1;
    }
    true
}

/// No percentage above 100 in the list.
pub open spec fn spec_percentages_ok(widths: Seq<Constraint>) -> bool {
    forall|j: int|
        0 <= j < widths.len() ==> !(#[trigger] widths[j] matches Constraint::Percentage(p) && p
            > 100)
}

/// The data and configuration of a table widget.
#[derive(Debug, Clone)]
pub struct Table {
    /// The rows shown, in order.
    pub rows: Vec<Row>,
    /// The row always shown at the top.
    pub header: Option<Row>,
    /// The row always shown at the bottom.
    pub footer: Option<Row>,
    /// The sizing policy of each column.
    pub widths: Vec<Constraint>,
    /// The blank columns between adjacent columns.
    pub column_spacing: u16,
    /// A block drawn around the table.
    pub block: Option<Block>,
    /// The base style of the whole widget.
    pub style: Style,
    /// The style laid over the selected row.
    pub highlight_style: Style,
    /// The symbol shown in front of the selected row.
    pub highlight_symbol: Text,
    /// When the selection column is allocated.
    pub highlight_spacing: HighlightSpacing,
    /// How leftover column space is distributed.
    pub segment_size: SegmentSize,
}

impl Table {
    /// A table of the given rows and column constraints.
    ///
    /// The constraints must be solvable: percentages within 100 and
    /// ratio denominators non-zero; the list no longer than the widest
    /// possible area.
    pub fn new(rows: Vec<Row>, widths: Vec<Constraint>) -> (r: Table)
        requires
            all_valid(widths@),
            widths@.len() <= 0xFFFF,
        ensures
            r.rows == rows,
            r.widths == widths,
            r.header is None,
            r.footer is None,
            r.column_spacing == 1u16,
            r.block is None,
            r.style == Style::spec_new(),
            r.highlight_style == Style::spec_new(),
            r.highlight_spacing == HighlightSpacing::WhenSelected,
            r.segment_size == SegmentSize::Unchanged,
            r.highlight_symbol.lines@.len() == 0,
    {
        Table {
            rows,
            header: None,
            footer: None,
            widths,
            column_spacing: 1,
            block: None,
            style: Style::new(),
            highlight_style: Style::new(),
            highlight_symbol: Text::default(),
            highlight_spacing: HighlightSpacing::WhenSelected,
            segment_size: SegmentSize::Unchanged,
        }
    }

    /// Replace the rows.
    pub fn rows(self, rows: Vec<Row>) -> (r: Table)
        ensures
            r == (Table { rows, ..self }),
    {
        Table { rows, ..self }
    }

    /// Set the header row.
    pub fn header(self, header: Row) -> (r: Table)
        ensures
            r == (Table { header: Some(header), ..self }),
    {
        Table { header: Some(header), ..self }
    }

    /// Set the footer row.
    pub fn footer(self, footer: Row) -> (r: Table)
        ensures
            r == (Table { footer: Some(footer), ..self }),
    {
        Table { footer: Some(footer), ..self }
    }

    /// Replace the column constraints.
    pub fn widths(self, widths: Vec<Constraint>) -> (r: Table)
        requires
            all_valid(widths@),
            widths@.len() <= 0xFFFF,
        ensures
            r == (Table { widths, ..self }),
    {
        Table { widths, ..self }
    }

    /// Set the blank space between columns.
    pub fn column_spacing(self, spacing: u16) -> (r: Table)
        ensures
            r == (Table { column_spacing: spacing, ..self }),
    {
        Table { column_spacing: spacing, ..self }
    }

    /// Wrap the table in a block.
    pub fn block(self, block: Block) -> (r: Table)
        ensures
            r.block is Some,
            r.rows == self.rows,
            r.widths == self.widths,
    {
        Table { block: Some(block), ..self }
    }

    /// Set the base style.
    pub fn style(self, style: Style) -> (r: Table)
        ensures
            r == (Table { style, ..self }),
    {
        Table { style, ..self }
    }

    /// Set the style of the selected row.
    pub fn highlight_style(self, highlight_style: Style) -> (r: Table)
        ensures
            r == (Table { highlight_style, ..self }),
    {
        Table { highlight_style, ..self }
    }

    /// Set the symbol shown in front of the selected row.
    pub fn highlight_symbol(self, highlight_symbol: Text) -> (r: Table)
        ensures
            r == (Table { highlight_symbol, ..self }),
    {
        Table { highlight_symbol, ..self }
    }

    /// Set when the selection column is allocated.
    pub fn highlight_spacing(self, value: HighlightSpacing) -> (r: Table)
        ensures
            r == (Table { highlight_spacing: value, ..self }),
    {
        Table { highlight_spacing: value, ..self }
    }

    /// Set how leftover column space is distributed.
    pub fn segment_size(self, segment_size: SegmentSize) -> (r: Table)
        ensures
            r == (Table { segment_size, ..self }),
    {
        Table { segment_size, ..self }
    }

    /// Black foreground on the base style.
    pub fn black(self) -> (r: Table)
        ensures
            r.style == (Style { fg: Some(crate::style::Color::Black), ..self.style }),
            r.rows == self.rows,
    {
        let style = self.style.black();
        Table { style, ..self }
    }

    /// White background on the base style.
    pub fn on_white(self) -> (r: Table)
        ensures
            r.style == (Style { bg: Some(crate::style::Color::White), ..self.style }),
            r.rows == self.rows,
    {
        let style = self.style.on_white();
        Table { style, ..self }
    }

    /// The bold flag on the base style.
    pub fn bold(self) -> (r: Table)
        ensures
            r.style.fg == self.style.fg,
            r.style.bg == self.style.bg,
            r.style.add_modifier.bits == self.style.add_modifier.bits | 0x0001u16,
            r.style.sub_modifier.bits == self.style.sub_modifier.bits & !0x0001u16,
            r.rows == self.rows,
    {
        let style = self.style.bold();
        Table { style, ..self }
    }

    /// Remove the crossed-out flag from the base style.
    pub fn not_crossed_out(self) -> (r: Table)
        ensures
            r.style.fg == self.style.fg,
            r.style.bg == self.style.bg,
            r.style.add_modifier.bits == self.style.add_modifier.bits & !0x0100u16,
            r.style.sub_modifier.bits == self.style.sub_modifier.bits | 0x0100u16,
            r.rows == self.rows,
    {
        let style = self.style.not_crossed_out();
        Table { style, ..self }
    }
}

impl Default for Table {
    /// An empty table with no columns.
    fn default() -> (r: Table)
        ensures
            r.rows@.len() == 0,
            r.header is None,
            r.footer is None,
            r.widths@.len() == 0,
            r.column_spacing == 1u16,
            r.block is None,
            r.style == Style::spec_new(),
            r.highlight_style == Style::spec_new(),
            r.highlight_spacing == HighlightSpacing::WhenSelected,
            r.segment_size == SegmentSize::Unchanged,
            r.highlight_symbol.lines@.len() == 0,
    {
        Table::new(Vec::new(), Vec::new())
    }
}

/// The vertical constraints a table's area is split with: the header
/// margins and height, the growing rows area and the footer margins
/// and height.
pub open spec fn spec_layout_constraints(t: Table) -> Seq<Constraint> {
    let htm = match t.header {
        Some(h) => h.top_margin,
        None => 0u16,
    };
    let hh = match t.header {
        Some(h) => h.height,
        None => 0u16,
    };
    let hbm = match t.header {
        Some(h) => h.bottom_margin,
        None => 0u16,
    };
    let ftm = match t.footer {
        Some(f) => f.top_margin,
        None => 0u16,
    };
    let fh = match t.footer {
        Some(f) => f.height,
        None => 0u16,
    };
    let fbm = match t.footer {
        Some(f) => f.bottom_margin,
        None => 0u16,
    };
    seq![
        Constraint::Length(htm),
        Constraint::Length(hh),
        Constraint::Length(hbm),
        Constraint::Fill(1u16),
        Constraint::Length(ftm),
        Constraint::Length(fh),
        Constraint::Length(fbm),
    ]
}

/// The width of the selection column a table allocates in the given
/// state.
pub open spec fn spec_selection_width(t: Table, state: TableState) -> int {
    let allocated = match t.highlight_spacing {
        HighlightSpacing::Always => true,
        HighlightSpacing::WhenSelected => state.selected is Some,
        HighlightSpacing::Never => false,
    };
    if allocated {
        let w = crate::text::spec_text_width(t.highlight_symbol.lines@);
        if w > 0xFFFF {
            0xFFFF
        } else {
            w
        }
    } else {
        0
    }
}

/// Growing the window downward from `end`: rows are taken while the
/// next row's own height still fits the height budget (the
/// accumulation stops early at its cap).
pub open spec fn spec_fill_window(rows: Seq<Row>, max_h: int, end: int, height: int) -> (int, int)
    decreases rows.len() - end,
{
    if 0 <= end < rows.len() && height + rows[end].height <= max_h {
        let h = spec_height_with_margin(rows[end]);
        if height + h > 0xFFFF_FFFF - 0x3_0000 {
            (end, height)
        } else {
            spec_fill_window(rows, max_h, end + 1, height + h)
        }
    } else {
        (end, height)
    }
}

/// Dropping rows off the front of the window while it exceeds the
/// height budget and more than one row remains.
pub open spec fn spec_shrink_front(
    rows: Seq<Row>,
    max_h: int,
    start: int,
    end: int,
    height: int,
) -> (int, int)
    decreases end - start,
{
    if height > max_h && end - start > 1 && 0 <= start < rows.len() {
        let hs = spec_height_with_margin(rows[start]);
        let nh = if height >= hs {
            height - hs
        } else {
            0
        };
        spec_shrink_front(rows, max_h, start + 1, end, nh)
    } else {
        (start, height)
    }
}

/// Dropping rows off the back of the window while it exceeds the
/// height budget and more than one row remains.
pub open spec fn spec_shrink_back(
    rows: Seq<Row>,
    max_h: int,
    start: int,
    end: int,
    height: int,
) -> (int, int)
    decreases end,
{
    if height > max_h && end - start > 1 && 0 <= end - 1 < rows.len() {
        let he = spec_height_with_margin(rows[end - 1]);
        let nh = if height >= he {
            height - he
        } else {
            0
        };
        spec_shrink_back(rows, max_h, start, end - 1, nh)
    } else {
        (end, height)
    }
}

/// Extending the window downward one row at a time until the selected
/// row is inside it, dropping front rows that no longer fit.
pub open spec fn spec_scroll_down(
    rows: Seq<Row>,
    max_h: int,
    sel: int,
    start: int,
    end: int,
    height: int,
) -> (int, int, int)
    decreases rows.len() - end,
{
    if sel >= end && 0 <= end < rows.len() {
        let h = spec_height_with_margin(rows[end]);
        let nh = if height <= 0xFFFF_FFFF - 0x1_0000 {
            height + h
        } else {
            height
        };
        let r = spec_shrink_front(rows, max_h, start, end + 1, nh);
        spec_scroll_down(rows, max_h, sel, r.0, end + 1, r.1)
    } else {
        (start, end, height)
    }
}

/// Extending the window upward one row at a time until the selected
/// row is inside it, dropping back rows that no longer fit.
pub open spec fn spec_scroll_up(
    rows: Seq<Row>,
    max_h: int,
    sel: int,
    start: int,
    end: int,
    height: int,
) -> (int, int, int)
    decreases start,
{
    if 0 <= sel < start {
        let ns = start - 1;
        let nh0 = if 0 <= ns < rows.len() {
            spec_height_with_margin(rows[ns])
        } else {
            0
        };
        let nh = if height <= 0xFFFF_FFFF - 0x1_0000 {
            height + nh0
        } else {
            height
        };
        let r = spec_shrink_back(rows, max_h, ns, end, nh);
        spec_scroll_up(rows, max_h, sel, ns, r.0, r.1)
    } else {
        (start, end, height)
    }
}

/// The visible row window: start from the clamped offset, fill
/// downward while rows fit, then scroll until the selected row is
/// inside.
pub open spec fn spec_row_window(
    rows: Seq<Row>,
    selected: Option<usize>,
    offset: int,
    max_h: int,
) -> (int, int) {
    let n = rows.len() as int;
    let off = if offset <= n - 1 {
        offset
    } else {
        n - 1
    };
    let f = spec_fill_window(rows, max_h, off, 0);
    let sel = spec_clamped_selection(selected, n);
    let d = spec_scroll_down(rows, max_h, sel, off, f.0, f.1);
    let u = spec_scroll_up(rows, max_h, sel, d.0, d.1, d.2);
    (u.0, u.1)
}

/// The row the scroll window must show: the selected one, the first
/// when nothing is selected, clamped to the last row.
pub open spec fn spec_clamped_selection(selected: Option<usize>, nrows: int) -> int {
    let s = match selected {
        Some(s) => s as int,
        None => 0,
    };
    if s <= nrows - 1 {
        s
    } else {
        nrows - 1
    }
}

/// The bounds under which one row's cells can be rendered.
pub open spec fn spec_row_sized(r: Row) -> bool {
    &&& r.cells@.len() <= 0xFFFF
    &&& forall|i: int| 0 <= i < r.cells@.len() ==> spec_text_sized((#[trigger] r.cells@[i]).content)
}



/// What rendering a whole table draws, in order: the base style over
/// the area, the wrapping block, and — when the area inside the block
/// has room — the header, the visible rows and the footer, each in its
/// slice of the vertical split.
pub open spec fn spec_table_render(
    t: Table,
    cells: Seq<crate::cell::Cell>,
    buf_area: Rect,
    area: Rect,
    state: TableState,
) -> Seq<crate::cell::Cell> {
    let c0 = crate::buffer::spec_set_style(cells, buf_area, area, t.style);
    let c1 = match t.block {
        Some(b) => crate::block::spec_block_render(b, c0, buf_area, area),
        None => c0,
    };
    let table_area = match t.block {
        Some(b) => crate::block::spec_block_inner(b, area),
        None => area,
    };
    if table_area.width == 0 || table_area.height == 0 {
        c1
    } else {
        let sel_w = spec_selection_width(t, state);
        let widths = spec_columns_widths(t, table_area.width as int, sel_w);
        let sol = spec_solve(table_area, Axis::Vertical, spec_layout_constraints(t), Flex::Start, 0);
        let c2 = match t.header {
            Some(h) => spec_render_row_cells(
                crate::buffer::spec_set_style(c1, buf_area, sol[1], h.style),
                buf_area,
                h,
                sol[1],
                widths,
                0,
            ),
            None => c1,
        };
        let c3 = spec_render_rows(
            c2,
            buf_area,
            t,
            sol[3],
            sel_w,
            state.selected,
            state.offset as int,
            widths,
        );
        match t.footer {
            Some(f) => spec_render_row_cells(
                crate::buffer::spec_set_style(c3, buf_area, sol[5], f.style),
                buf_area,
                f,
                sol[5],
                widths,
                0,
            ),
            None => c3,
        }
    }
}

/// What drawing one visible row does, in order: the row's style over
/// its strip, the selection column's style and the highlight symbol
/// when the row is selected, each cell in its column, and the
/// highlight style over the whole strip of the selected row.
pub open spec fn spec_render_one_row(
    cells: Seq<crate::cell::Cell>,
    buf_area: Rect,
    t: Table,
    area: Rect,
    sel_w: int,
    selected: Option<usize>,
    widths: Seq<(u16, u16)>,
    i: int,
    y_offset: int,
) -> Seq<crate::cell::Cell> {
    let row = t.rows@[i];
    let ry = area.y + y_offset + row.top_margin;
    let row_area = Rect { x: area.x, y: ry as u16, width: area.width, height: row.height };
    let c1 = crate::buffer::spec_set_style(cells, buf_area, row_area, row.style);
    let is_sel = match selected {
        Some(s) => s as int == i,
        None => false,
    };
    let c2 = if sel_w > 0 && is_sel && row_area.x + sel_w <= 0xFFFF {
        let sel_area = Rect { width: sel_w as u16, ..row_area };
        crate::text::spec_render_text_from(
            crate::buffer::spec_set_style(
                crate::buffer::spec_set_style(c1, buf_area, sel_area, row.style),
                buf_area,
                sel_area,
                t.highlight_symbol.style,
            ),
            buf_area,
            t.highlight_symbol.alignment,
            sel_area,
            t.highlight_symbol.lines@,
            0,
        )
    } else {
        c1
    };
    let c3 = spec_render_row_cells(c2, buf_area, row, row_area, widths, 0);
    if is_sel {
        crate::buffer::spec_set_style(c3, buf_area, row_area, t.highlight_style)
    } else {
        c3
    }
}

/// Drawing the visible rows from index `i` up to `end`, stacked by
/// their heights and margins: a row whose strip would leave the grid
/// or the area is skipped, and the walk stops once the stacked height
/// passes the largest extent.
pub open spec fn spec_render_rows_from(
    cells: Seq<crate::cell::Cell>,
    buf_area: Rect,
    t: Table,
    area: Rect,
    sel_w: int,
    selected: Option<usize>,
    widths: Seq<(u16, u16)>,
    i: int,
    end: int,
    y_offset: int,
) -> Seq<crate::cell::Cell>
    decreases end - i,
{
    if i < 0 || i >= end || i >= t.rows@.len() {
        cells
    } else {
        let row = t.rows@[i];
        let ry = area.y + y_offset + row.top_margin;
        if ry + row.height > 0xFFFF || ry >= area.y + area.height {
            spec_render_rows_from(cells, buf_area, t, area, sel_w, selected, widths, i + 1, end, y_offset)
        } else {
            let drawn = spec_render_one_row(cells, buf_area, t, area, sel_w, selected, widths, i, y_offset);
            let ny = y_offset + spec_height_with_margin(row);
            if ny > 0x1_0000 {
                drawn
            } else {
                spec_render_rows_from(drawn, buf_area, t, area, sel_w, selected, widths, i + 1, end, ny)
            }
        }
    }
}

/// Drawing the rows area of a table: nothing when there are no rows,
/// otherwise the visible window of rows, scrolled so the selected row
/// is inside it.
pub open spec fn spec_render_rows(
    cells: Seq<crate::cell::Cell>,
    buf_area: Rect,
    t: Table,
    area: Rect,
    sel_w: int,
    selected: Option<usize>,
    offset: int,
    widths: Seq<(u16, u16)>,
) -> Seq<crate::cell::Cell> {
    if t.rows@.len() == 0 {
        cells
    } else {
        let w = spec_row_window(t.rows@, selected, offset, area.height as int);
        spec_render_rows_from(cells, buf_area, t, area, sel_w, selected, widths, w.0, w.1, 0)
    }
}

/// Rendering one table cell: its own style laid over its area, then
/// its text's base style, then the text's rows.
pub open spec fn spec_render_cell(
    cells: Seq<crate::cell::Cell>,
    buf_area: Rect,
    cell: Cell,
    la: Rect,
) -> Seq<crate::cell::Cell> {
    crate::text::spec_render_text_from(
        crate::buffer::spec_set_style(
            crate::buffer::spec_set_style(cells, buf_area, la, cell.style),
            buf_area,
            la,
            cell.content.style,
        ),
        buf_area,
        cell.content.alignment,
        la,
        cell.content.lines@,
        0,
    )
}

/// Rendering the cells of a row from column `c` on, each into its
/// column's slice of `area`; cells whose slice would leave the grid
/// are not drawn.
pub open spec fn spec_render_row_cells(
    cells: Seq<crate::cell::Cell>,
    buf_area: Rect,
    row: Row,
    area: Rect,
    widths: Seq<(u16, u16)>,
    c: int,
) -> Seq<crate::cell::Cell>
    decreases widths.len() - c,
{
    if c < 0 || c >= widths.len() {
        cells
    } else {
        let next = if c < row.cells@.len() {
            let cw = widths[c];
            if area.x + cw.0 + cw.1 <= 0xFFFF && area.y + area.height <= 0xFFFF {
                spec_render_cell(
                    cells,
                    buf_area,
                    row.cells@[c],
                    Rect {
                        x: (area.x + cw.0) as u16,
                        y: area.y,
                        width: cw.1,
                        height: area.height,
                    },
                )
            } else {
                cells
            }
        } else {
            cells
        };
        spec_render_row_cells(next, buf_area, row, area, widths, c + 1)
    }
}

/// Render one table cell into its area: the cell's style under its
/// text.
fn render_cell(cell: &Cell, area: Rect, buf: &mut Buffer)
    requires
        old(buf).well_formed(),
        spec_text_sized(cell.content),
        area.x + area.width <= 0xFFFF,
        area.y + area.height <= 0xFFFF,
    ensures
        final(buf).area == old(buf).area,
        final(buf).well_formed(),
        final(buf).content@ == spec_render_cell(old(buf).content@, old(buf).area, *cell, area),
{
    buf.set_style(area, cell.style);
    cell.content.render(area, buf);
}

/// Render the cells of one row at the given column offsets and widths.
fn render_row_cells(row: &Row, area: Rect, buf: &mut Buffer, column_widths: &Vec<(u16, u16)>)
    requires
        old(buf).well_formed(),
        spec_row_sized(*row),
    ensures
        final(buf).area == old(buf).area,
        final(buf).well_formed(),
        final(buf).content@ == spec_render_row_cells(
            old(buf).content@,
            old(buf).area,
            *row,
            area,
            column_widths@,
            0,
        ),
{
    let ghost target = spec_render_row_cells(
        old(buf).content@,
        old(buf).area,
        *row,
        area,
        column_widths@,
        0,
    );
    let mut c: usize = 0;
    while c < column_widths.len()
        invariant
            buf.area == old(buf).area,
            buf.well_formed(),
            spec_row_sized(*row),
            c <= column_widths@.len(),
            target == spec_render_row_cells(
                old(buf).content@,
                old(buf).area,
                *row,
                area,
                column_widths@,
                0,
            ),
            spec_render_row_cells(
                buf.content@,
                buf.area,
                *row,
                area,
                column_widths@,
                c as int,
            ) == target,
        decreases column_widths@.len() - c,
    {
        if c < row.cells.len() {
            let (cx, cw) = column_widths[c];
            let cell_x: u32 = area.x as u32 + cx as u32;
            let cell_y: u32 = area.y as u32;
            if cell_x + cw as u32 <= 0xFFFF && cell_y + area.height as u32 <= 0xFFFF {
                let cell_area = Rect {
                    x: cell_x as u16,
                    y: area.y,
                    width: cw,
                    height: area.height,
                };
                render_cell(&row.cells[c], cell_area, buf);
            }
        }
        c = c + 1;
    }
}

/// The largest cell count among the given rows.
pub open spec fn spec_max_cells(rows: Seq<Row>) -> int
    decreases rows.len(),
{
    if rows.len() == 0 {
        0
    } else {
        let rest = spec_max_cells(rows.drop_last());
        let last = rows.last().cells@.len() as int;
        if last > rest {
            last
        } else {
            rest
        }
    }
}

/// The number of columns of a table: the widest of its rows, header
/// and footer.
pub open spec fn spec_col_count(t: Table) -> int {
    let r = spec_max_cells(t.rows@);
    let h = match t.header {
        Some(h) => h.cells@.len() as int,
        None => 0,
    };
    let f = match t.footer {
        Some(f) => f.cells@.len() as int,
        None => 0,
    };
    let a = if h > r {
        h
    } else {
        r
    };
    if f > a {
        f
    } else {
        a
    }
}

/// The column constraints a table solves with: its own, or one equal
/// `Length` share per column when none were given.
pub open spec fn spec_effective_widths(t: Table, max_width: int) -> Seq<Constraint> {
    if t.widths@.len() == 0 {
        let cc = spec_col_count(t);
        let denom = if cc >= 1 {
            cc
        } else {
            1
        };
        Seq::new(cc as nat, |i: int| Constraint::Length((max_width / denom) as u16))
    } else {
        t.widths@
    }
}

/// The area left of a row once the selection column is split off.
pub open spec fn spec_columns_area(max_width: int, selection_width: int) -> Rect {
    spec_solve(
        Rect { x: 0, y: 0, width: max_width as u16, height: 1 },
        Axis::Horizontal,
        seq![Constraint::Length(selection_width as u16), Constraint::Fill(0)],
        Flex::Start,
        0,
    )[1]
}

/// The offset and width of each column of the table, inside a row of
/// `max_width` cells with the selection column split off first.
pub open spec fn spec_columns_widths(t: Table, max_width: int, selection_width: int) -> Seq<
    (u16, u16),
> {
    let area = spec_columns_area(max_width, selection_width);
    let rects = spec_solve(
        area,
        Axis::Horizontal,
        spec_effective_widths(t, max_width),
        spec_segment_flex(t.segment_size),
        t.column_spacing as int,
    );
    rects.map_values(|r: Rect| (r.x, r.width))
}

impl Table {
    /// The bounds under which the table can be laid out: solvable
    /// constraints and sizes the solver accepts.
    pub open spec fn spec_sized(self) -> bool {
        &&& all_valid(self.widths@)
        &&& self.widths@.len() <= 0xFFFF
        &&& self.rows@.len() <= 0xFFFF
        &&& spec_col_count(self) <= 0xFFFF
        &&& spec_text_sized(self.highlight_symbol)
        &&& forall|i: int| 0 <= i < self.rows@.len() ==> spec_row_sized(#[trigger] self.rows@[i])
        &&& match self.header {
            Some(h) => spec_row_sized(h),
            None => true,
        }
        &&& match self.footer {
            Some(f) => spec_row_sized(f),
            None => true,
        }
        &&& match self.block {
            Some(b) => match b.title {
                Some(l) => spec_line_sized(l),
                None => true,
            },
            None => true,
        }
    }

    /// The offset and width of every column, in order.
    ///
    /// The selection column is always split off the left edge first;
    /// the remaining width is divided among the columns as the
    /// constraints demand, with the configured spacing between
    /// adjacent columns.
    pub fn get_columns_widths(&self, max_width: u16, selection_width: u16) -> (r: Vec<(u16, u16)>)
        requires
            self.spec_sized(),
        ensures
            r@ == spec_columns_widths(*self, max_width as int, selection_width as int),
    {
        let mut widths: Vec<Constraint> = Vec::new();
        if self.widths.len() == 0 {
            let cc = self.col_count();
            let denom: usize = if cc >= 1 {
                cc
            } else {
                1
            };
            let share: u16 = ((max_width as usize) / denom) as u16;
            let mut i: usize = 0;
            while i < cc
                invariant
                    i <= cc,
                    widths@.len() == i,
                    share as int == max_width as int / (if cc >= 1 {
                        cc as int
                    } else {
                        1int
                    }),
                    forall|j: int| 0 <= j < i ==> #[trigger] widths@[j] == Constraint::Length(share),
                decreases cc - i,
            {
                widths.push(Constraint::Length(share));
                i = i + 1;
            }
        } else {
            let mut i: usize = 0;
            while i < self.widths.len()
                invariant
                    i <= self.widths@.len(),
                    widths@ == self.widths@.take(i as int),
                decreases self.widths@.len() - i,
            {
                widths.push(self.widths[i]);
                proof {
                    assert(widths@ =~= self.widths@.take(i as int + 1));
                }
                i = i + 1;
            }
            proof {
                assert(widths@ =~= self.widths@);
            }
        }
        proof {
            assert(widths@ =~= spec_effective_widths(*self, max_width as int));
        }
        let mut split: Vec<Constraint> = Vec::new();
        split.push(Constraint::Length(selection_width));
        split.push(Constraint::Fill(0));
        proof {
            assert(split@ =~= seq![
                Constraint::Length(selection_width),
                Constraint::Fill(0u16),
            ]);
        }
        let outer = solve(
            Rect { x: 0, y: 0, width: max_width, height: 1 },
            Axis::Horizontal,
            &split,
            Flex::Start,
            0,
        );
        let columns_area = outer[1];
        let flex = match self.segment_size {
            SegmentSize::Unchanged => Flex::Start,
            SegmentSize::LastTakesRemainder => Flex::Legacy,
            SegmentSize::EvenDistribution => Flex::Legacy,
        };
        let rects = solve(columns_area, Axis::Horizontal, &widths, flex, self.column_spacing);
        let mut out: Vec<(u16, u16)> = Vec::new();
        let mut i: usize = 0;
        while i < rects.len()
            invariant
                i <= rects@.len(),
                out@.len() == i,
                forall|j: int| 0 <= j < i ==> #[trigger] out@[j] == (rects@[j].x, rects@[j].width),
            decreases rects@.len() - i,
        {
            let rc = rects[i];
            out.push((rc.x, rc.width));
            i = i + 1;
        }
        proof {
            assert(out@ =~= spec_columns_widths(*self, max_width as int, selection_width as int));
        }
        out
    }

    /// The vertical split of the table area: the header row, the rows
    /// area and the footer row, with the configured margins around
    /// header and footer.
    pub fn layout(&self, area: Rect) -> (r: (Rect, Rect, Rect))
        ensures
            ({
                let sol = spec_solve(
                    area,
                    Axis::Vertical,
                    spec_layout_constraints(*self),
                    Flex::Start,
                    0,
                );
                r == (sol[1], sol[3], sol[5])
            }),
    {
        let header_top_margin: u16 = match &self.header {
            Some(h) => h.top_margin,
            None => 0,
        };
        let header_height: u16 = match &self.header {
            Some(h) => h.height,
            None => 0,
        };
        let header_bottom_margin: u16 = match &self.header {
            Some(h) => h.bottom_margin,
            None => 0,
        };
        let footer_top_margin: u16 = match &self.footer {
            Some(f) => f.top_margin,
            None => 0,
        };
        let footer_height: u16 = match &self.footer {
            Some(f) => f.height,
            None => 0,
        };
        let footer_bottom_margin: u16 = match &self.footer {
            Some(f) => f.bottom_margin,
            None => 0,
        };
        let mut cs: Vec<Constraint> = Vec::new();
        cs.push(Constraint::Length(header_top_margin));
        cs.push(Constraint::Length(header_height));
        cs.push(Constraint::Length(header_bottom_margin));
        cs.push(Constraint::Fill(1));
        cs.push(Constraint::Length(footer_top_margin));
        cs.push(Constraint::Length(footer_height));
        cs.push(Constraint::Length(footer_bottom_margin));
        proof {
            assert(cs@ =~= spec_layout_constraints(*self));
        }
        let sol = solve(area, Axis::Vertical, &cs, Flex::Start, 0);
        (sol[1], sol[3], sol[5])
    }

    /// The width of the selection column: the highlight symbol's width
    /// (capped at the largest extent) when the spacing is allocated,
    /// otherwise zero.
    pub fn selection_width(&self, state: &TableState) -> (r: u16)
        requires
            self.spec_sized(),
        ensures
            r as int == spec_selection_width(*self, *state),
    {
        let has_selection = match state.selected {
            Some(_) => true,
            None => false,
        };
        if self.highlight_spacing.should_add(has_selection) {
            let w = self.highlight_symbol.width();
            if w > 0xFFFF {
                0xFFFF
            } else {
                w as u16
            }
        } else {
            0
        }
    }

    /// The range of row indices shown: a window around the offset that
    /// fits the height ([`spec_row_window`]), widened and shifted until
    /// the selected row is inside it. The selected row (the first row
    /// when nothing is selected, clamped to the last row) always lies
    /// in the window.
    pub fn get_row_bounds(&self, selected: Option<usize>, offset: usize, max_height: u16) -> (r: (
        usize,
        usize,
    ))
        requires
            self.rows@.len() > 0,
        ensures
            r.0 <= r.1 <= self.rows@.len(),
            r.0 <= spec_clamped_selection(selected, self.rows@.len() as int) < r.1,
            (r.0 as int, r.1 as int) == spec_row_window(
                self.rows@,
                selected,
                offset as int,
                max_height as int,
            ),
    {
        let ghost rows_seq = self.rows@;
        let ghost sel_arg = selected;
        let ghost off_arg = offset as int;
        let ghost mh = max_height as int;
        let nrows = self.rows.len();
        let offset = if offset <= nrows - 1 {
            offset
        } else {
            nrows - 1
        };
        let mut start: usize = offset;
        let mut end: usize = offset;
        let mut height: u32 = 0;
        let ghost fill_t = spec_fill_window(rows_seq, mh, offset as int, 0);
        while end < nrows && height + self.rows[end].height as u32 <= max_height as u32 && height
            + self.rows[end].height_with_margin() as u32 <= 0xFFFF_FFFF - 0x3_0000
            invariant
                self.rows@ == rows_seq,
                mh == max_height as int,
                self.rows@.len() == nrows,
                offset <= end <= nrows,
                start == offset,
                height <= 0xFFFF_FFFF - 0x3_0000,
                fill_t == spec_fill_window(rows_seq, mh, end as int, height as int),
            decreases nrows - end,
        {
            let ghost pe = end as int;
            let ghost ph = height as int;
            let h = self.rows[end].height_with_margin() as u32;
            height = height + h;
            end = end + 1;
            proof {
                assert(ph + rows_seq[pe].height <= mh);
                assert(ph + spec_height_with_margin(rows_seq[pe]) <= 0xFFFF_FFFF - 0x3_0000);
                assert(spec_fill_window(rows_seq, mh, pe, ph) == spec_fill_window(
                    rows_seq,
                    mh,
                    end as int,
                    height as int,
                ));
            }
        }
        proof {
            assert(fill_t == (end as int, height as int));
        }
        let selected = {
            let s = match selected {
                Some(s) => s,
                None => 0,
            };
            if s <= nrows - 1 {
                s
            } else {
                nrows - 1
            }
        };
        proof {
            assert(selected as int == spec_clamped_selection(sel_arg, nrows as int));
        }
        let ghost down_t = spec_scroll_down(
            rows_seq,
            mh,
            selected as int,
            start as int,
            end as int,
            height as int,
        );
        while selected >= end
            invariant
                self.rows@ == rows_seq,
                mh == max_height as int,
                self.rows@.len() == nrows,
                start <= end <= nrows,
                selected < nrows,
                down_t == spec_scroll_down(
                    rows_seq,
                    mh,
                    selected as int,
                    start as int,
                    end as int,
                    height as int,
                ),
            decreases nrows - end,
        {
            let ghost pe = end as int;
            let ghost ps = start as int;
            let ghost ph = height as int;
            let h = self.rows[end].height_with_margin() as u32;
            height = if height <= 0xFFFF_FFFF - 0x1_0000 {
                height + h
            } else {
                height
            };
            end = end + 1;
            proof {
                assert(spec_scroll_down(rows_seq, mh, selected as int, ps, pe, ph) == ({
                    let r = spec_shrink_front(rows_seq, mh, ps, pe + 1, height as int);
                    spec_scroll_down(rows_seq, mh, selected as int, r.0, pe + 1, r.1)
                }));
            }
            let ghost shrink_t = spec_shrink_front(
                rows_seq,
                mh,
                start as int,
                end as int,
                height as int,
            );
            while height > max_height as u32 && end - start > 1
                invariant
                    self.rows@ == rows_seq,
                    mh == max_height as int,
                    self.rows@.len() == nrows,
                    start <= end <= nrows,
                    end <= selected + 1,
                    selected < nrows,
                    shrink_t == spec_shrink_front(
                        rows_seq,
                        mh,
                        start as int,
                        end as int,
                        height as int,
                    ),
                decreases end - start,
            {
                let ghost ps = start as int;
                let ghost ph = height as int;
                let hs = self.rows[start].height_with_margin() as u32;
                height = if height >= hs {
                    height - hs
                } else {
                    0
                };
                start = start + 1;
                proof {
                    assert(spec_shrink_front(rows_seq, mh, ps, end as int, ph)
                        == spec_shrink_front(rows_seq, mh, start as int, end as int, height as int));
                }
            }
            proof {
                assert(shrink_t == (start as int, height as int));
            }
        }
        proof {
            assert(selected < end);
            assert(down_t == (start as int, end as int, height as int));
        }
        let ghost up_t = spec_scroll_up(
            rows_seq,
            mh,
            selected as int,
            start as int,
            end as int,
            height as int,
        );
        while selected < start
            invariant
                self.rows@ == rows_seq,
                mh == max_height as int,
                self.rows@.len() == nrows,
                start <= end <= nrows,
                selected < end,
                up_t == spec_scroll_up(
                    rows_seq,
                    mh,
                    selected as int,
                    start as int,
                    end as int,
                    height as int,
                ),
            decreases start,
        {
            let ghost ps = start as int;
            let ghost pe = end as int;
            let ghost ph = height as int;
            start = start - 1;
            height = if height <= 0xFFFF_FFFF - 0x1_0000 {
                height + self.rows[start].height_with_margin() as u32
            } else {
                height
            };
            proof {
                assert(spec_scroll_up(rows_seq, mh, selected as int, ps, pe, ph) == ({
                    let r = spec_shrink_back(rows_seq, mh, ps - 1, pe, height as int);
                    spec_scroll_up(rows_seq, mh, selected as int, ps - 1, r.0, r.1)
                }));
            }
            let ghost back_t = spec_shrink_back(
                rows_seq,
                mh,
                start as int,
                end as int,
                height as int,
            );
            while height > max_height as u32 && end - start > 1
                invariant
                    self.rows@ == rows_seq,
                    mh == max_height as int,
                    self.rows@.len() == nrows,
                    start < end <= nrows,
                    selected <= start,
                    back_t == spec_shrink_back(
                        rows_seq,
                        mh,
                        start as int,
                        end as int,
                        height as int,
                    ),
                decreases end,
            {
                let ghost pe = end as int;
                let ghost ph = height as int;
                end = end - 1;
                let he = self.rows[end].height_with_margin() as u32;
                height = if height >= he {
                    height - he
                } else {
                    0
                };
                proof {
                    assert(spec_shrink_back(rows_seq, mh, start as int, pe, ph)
                        == spec_shrink_back(rows_seq, mh, start as int, end as int, height as int));
                }
            }
            proof {
                assert(back_t == (end as int, height as int));
            }
        }
        proof {
            assert(up_t == (start as int, end as int, height as int));
            assert((start as int, end as int) == spec_row_window(rows_seq, sel_arg, off_arg, mh));
        }
        (start, end)
    }

    /// Render the table into `area` of `buf`, with no row selected and
    /// no scroll.
    pub fn render(&self, area: Rect, buf: &mut Buffer)
        requires
            old(buf).well_formed(),
            self.spec_sized(),
            area.x + area.width <= 0xFFFF,
            area.y + area.height <= 0xFFFF,
        ensures
            final(buf).area == old(buf).area,
            final(buf).well_formed(),
            final(buf).content@ == spec_table_render(
                *self,
                old(buf).content@,
                old(buf).area,
                area,
                TableState { offset: 0, selected: None },
            ),
    {
        let mut state = TableState::new();
        self.render_stateful(area, buf, &mut state);
    }

    /// Render the table into `area` of `buf`, scrolled and highlighted
    /// as `state` says; the state's offset is clamped to the first row
    /// shown, and the selection itself is never changed.
    pub fn render_stateful(&self, area: Rect, buf: &mut Buffer, state: &mut TableState)
        requires
            old(buf).well_formed(),
            self.spec_sized(),
            area.x + area.width <= 0xFFFF,
            area.y + area.height <= 0xFFFF,
        ensures
            final(buf).area == old(buf).area,
            final(buf).well_formed(),
            final(state).selected == old(state).selected,
            final(buf).content@ == spec_table_render(
                *self,
                old(buf).content@,
                old(buf).area,
                area,
                *old(state),
            ),
            ({
                let table_area = match self.block {
                    Some(b) => crate::block::spec_block_inner(b, area),
                    None => area,
                };
                let rows_area = spec_solve(
                    table_area,
                    Axis::Vertical,
                    spec_layout_constraints(*self),
                    Flex::Start,
                    0,
                )[3];
                if table_area.width == 0 || table_area.height == 0 || self.rows@.len() == 0 {
                    *final(state) == *old(state)
                } else {
                    final(state).offset as int == spec_row_window(
                        self.rows@,
                        old(state).selected,
                        old(state).offset as int,
                        rows_area.height as int,
                    ).0
                }
            }),
    {
        buf.set_style(area, self.style);
        let table_area = self.render_block(area, buf);
        if table_area.width == 0 || table_area.height == 0 {
            return ;
        }
        let selection_width = self.selection_width(state);
        let columns_widths = self.get_columns_widths(table_area.width, selection_width);
        let (header_area, rows_area, footer_area) = self.layout(table_area);
        proof {
            lemma_solve_coverage(
                table_area,
                Axis::Vertical,
                spec_layout_constraints(*self),
                Flex::Start,
                0,
            );
        }
        self.render_header(header_area, buf, &columns_widths);
        self.render_rows(rows_area, buf, state, selection_width, &columns_widths);
        self.render_footer(footer_area, buf, &columns_widths);
    }

    /// Draw the wrapping block, if any, and hand back the area inside
    /// it.
    fn render_block(&self, area: Rect, buf: &mut Buffer) -> (r: Rect)
        requires
            old(buf).well_formed(),
            self.spec_sized(),
        ensures
            final(buf).area == old(buf).area,
            final(buf).well_formed(),
            r == match self.block {
                Some(b) => crate::block::spec_block_inner(b, area),
                None => area,
            },
            final(buf).content@ == match self.block {
                Some(b) => crate::block::spec_block_render(b, old(buf).content@, old(buf).area, area),
                None => old(buf).content@,
            },
            r.x + r.width <= area.x + area.width,
            r.y + r.height <= area.y + area.height,
            r.x >= area.x,
            r.y >= area.y,
    {
        match &self.block {
            Some(block) => {
                let inner = block.inner(area);
                block.render(area, buf);
                inner
            },
            None => area,
        }
    }

    /// Render the header row, if any, into its area: its style over
    /// the whole area, then each cell in its column.
    fn render_header(&self, area: Rect, buf: &mut Buffer, column_widths: &Vec<(u16, u16)>)
        requires
            old(buf).well_formed(),
            self.spec_sized(),
        ensures
            final(buf).area == old(buf).area,
            final(buf).well_formed(),
            final(buf).content@ == match self.header {
                Some(header) => spec_render_row_cells(
                    crate::buffer::spec_set_style(
                        old(buf).content@,
                        old(buf).area,
                        area,
                        header.style,
                    ),
                    old(buf).area,
                    header,
                    area,
                    column_widths@,
                    0,
                ),
                None => old(buf).content@,
            },
    {
        match &self.header {
            Some(header) => {
                buf.set_style(area, header.style);
                render_row_cells(header, area, buf, column_widths);
            },
            None => {},
        }
    }

    /// Render the footer row, if any, into its area: its style over
    /// the whole area, then each cell in its column.
    fn render_footer(&self, area: Rect, buf: &mut Buffer, column_widths: &Vec<(u16, u16)>)
        requires
            old(buf).well_formed(),
            self.spec_sized(),
        ensures
            final(buf).area == old(buf).area,
            final(buf).well_formed(),
            final(buf).content@ == match self.footer {
                Some(footer) => spec_render_row_cells(
                    crate::buffer::spec_set_style(
                        old(buf).content@,
                        old(buf).area,
                        area,
                        footer.style,
                    ),
                    old(buf).area,
                    footer,
                    area,
                    column_widths@,
                    0,
                ),
                None => old(buf).content@,
            },
    {
        match &self.footer {
            Some(footer) => {
                buf.set_style(area, footer.style);
                render_row_cells(footer, area, buf, column_widths);
            },
            None => {},
        }
    }

    /// Render the visible rows, the selected one in the highlight style
    /// and with the highlight symbol in the selection column.
    fn render_rows(
        &self,
        area: Rect,
        buf: &mut Buffer,
        state: &mut TableState,
        selection_width: u16,
        columns_widths: &Vec<(u16, u16)>,
    )
        requires
            old(buf).well_formed(),
            self.spec_sized(),
            area.x + area.width <= 0xFFFF,
            area.y + area.height <= 0xFFFF,
        ensures
            final(buf).area == old(buf).area,
            final(buf).well_formed(),
            final(state).selected == old(state).selected,
            self.rows@.len() > 0 ==> final(state).offset as int == spec_row_window(
                self.rows@,
                old(state).selected,
                old(state).offset as int,
                area.height as int,
            ).0,
            self.rows@.len() == 0 ==> *final(state) == *old(state),
            final(buf).content@ == spec_render_rows(
                old(buf).content@,
                old(buf).area,
                *self,
                area,
                selection_width as int,
                old(state).selected,
                old(state).offset as int,
                columns_widths@,
            ),
    {
        if self.rows.len() == 0 {
            return ;
        }
        let (start_index, end_index) = self.get_row_bounds(
            state.selected,
            state.offset,
            area.height,
        );
        state.offset = start_index;
        let ghost target = spec_render_rows_from(
            old(buf).content@,
            old(buf).area,
            *self,
            area,
            selection_width as int,
            old(state).selected,
            columns_widths@,
            start_index as int,
            end_index as int,
            0,
        );
        proof {
            assert(target == spec_render_rows(
                old(buf).content@,
                old(buf).area,
                *self,
                area,
                selection_width as int,
                old(state).selected,
                old(state).offset as int,
                columns_widths@,
            ));
        }
        let mut y_offset: u32 = 0;
        let mut i: usize = start_index;
        while i < end_index
            invariant
                buf.area == old(buf).area,
                buf.well_formed(),
                self.spec_sized(),
                area.x + area.width <= 0xFFFF,
                area.y + area.height <= 0xFFFF,
                end_index <= self.rows@.len(),
                start_index <= i,
                y_offset <= 0x1_0000,
                state.selected == old(state).selected,
                state.offset == start_index,
                start_index as int == spec_row_window(
                    self.rows@,
                    old(state).selected,
                    old(state).offset as int,
                    area.height as int,
                ).0,
                target == spec_render_rows(
                    old(buf).content@,
                    old(buf).area,
                    *self,
                    area,
                    selection_width as int,
                    old(state).selected,
                    old(state).offset as int,
                    columns_widths@,
                ),
                spec_render_rows_from(
                    buf.content@,
                    buf.area,
                    *self,
                    area,
                    selection_width as int,
                    old(state).selected,
                    columns_widths@,
                    i as int,
                    end_index as int,
                    y_offset as int,
                ) == target,
            decreases end_index - i,
        {
            let ghost citer = buf.content@;
            let row = &self.rows[i];
            let ry: u32 = area.y as u32 + y_offset + row.top_margin as u32;
            let rh: u16 = row.height;
            if ry + rh as u32 > 0xFFFF || ry >= area.y as u32 + area.height as u32 {
                // rows that would leave the grid or the area are not drawn
                i = i + 1;
                continue ;
            }
            let row_area = Rect { x: area.x, y: ry as u16, width: area.width, height: rh };
            buf.set_style(row_area, row.style);
            let is_selected = match state.selected {
                Some(index) => index == i,
                None => false,
            };
            if selection_width > 0 && is_selected && row_area.x as u32 + selection_width as u32
                <= 0xFFFF {
                let selection_area = Rect { width: selection_width, ..row_area };
                buf.set_style(selection_area, row.style);
                self.highlight_symbol.render(selection_area, buf);
            }
            render_row_cells(row, row_area, buf, columns_widths);
            if is_selected {
                buf.set_style(row_area, self.highlight_style);
            }
            proof {
                assert(buf.content@ == spec_render_one_row(
                    citer,
                    buf.area,
                    *self,
                    area,
                    selection_width as int,
                    old(state).selected,
                    columns_widths@,
                    i as int,
                    y_offset as int,
                ));
            }
            y_offset = y_offset + row.height_with_margin() as u32;
            if y_offset > 0x1_0000 {
                return ;
            }
            i = i + 1;
        }
    }

    /// The number of columns ([`spec_col_count`]).
    fn col_count(&self) -> (r: usize)
        requires
            self.spec_sized(),
        ensures
            r as int == spec_col_count(*self),
    {
        let mut best: usize = 0;
        let mut i: usize = 0;
        proof {
            assert(self.rows@.take(0) =~= Seq::<Row>::empty());
        }
        while i < self.rows.len()
            invariant
                self.spec_sized(),
                i <= self.rows@.len(),
                best as int == spec_max_cells(self.rows@.take(i as int)),
            decreases self.rows@.len() - i,
        {
            proof {
                assert(self.rows@.take(i as int + 1).drop_last() =~= self.rows@.take(i as int));
                assert(self.rows@.take(i as int + 1).last() == self.rows@[i as int]);
            }
            let c = self.rows[i].cells.len();
            if c > best {
                best = c;
            }
            i = i + 1;
        }
        proof {
            assert(self.rows@.take(self.rows@.len() as int) =~= self.rows@);
        }
        let best = match &self.header {
            Some(h) => if h.cells.len() > best {
                h.cells.len()
            } else {
                best
            },
            None => best,
        };
        let best = match &self.footer {
            Some(f) => if f.cells.len() > best {
                f.cells.len()
            } else {
                best
            },
            None => best,
        };
        best
    }
}

} // verus!
