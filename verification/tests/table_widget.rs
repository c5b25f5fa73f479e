//! The table widget: construction, column allocation and rendering.
use tui_core::block::{Block, Borders};
use tui_core::buffer::Buffer;
use tui_core::constraint::Constraint;
use tui_core::constraint::Constraint::{Length, Max, Min, Percentage, Ratio};
use tui_core::rect::Rect;
use tui_core::style::{Color, Modifier, Style};
use tui_core::table::{Cell, HighlightSpacing, Row, SegmentSize, Table, TableState};
use tui_core::text::{Alignment, Line, Text};

#[test]
fn table_new() {
    let rows = vec![Row::new(vec![Cell::raw("")])];
    let widths = vec![Constraint::Percentage(100)];
    let table = Table::new(rows.clone(), widths.clone());
    assert_eq!(table.rows, rows);
    assert_eq!(table.header, None);
    assert_eq!(table.footer, None);
    assert_eq!(table.widths, widths);
    assert_eq!(table.column_spacing, 1);
    assert_eq!(table.block, None);
    assert_eq!(table.style, Style::default());
    assert_eq!(table.highlight_style, Style::default());
    assert_eq!(table.highlight_symbol, Text::default());
    assert_eq!(table.highlight_spacing, HighlightSpacing::WhenSelected);
    assert_eq!(table.segment_size, SegmentSize::Unchanged);
}

#[test]
fn default() {
    let table = Table::default();
    assert_eq!(table.rows, vec![]);
    assert_eq!(table.header, None);
    assert_eq!(table.footer, None);
    assert_eq!(table.widths, vec![]);
    assert_eq!(table.column_spacing, 1);
    assert_eq!(table.block, None);
    assert_eq!(table.style, Style::default());
    assert_eq!(table.highlight_style, Style::default());
    assert_eq!(table.highlight_symbol, Text::default());
    assert_eq!(table.highlight_spacing, HighlightSpacing::WhenSelected);
    assert_eq!(table.segment_size, SegmentSize::Unchanged);
}

#[test]
fn collect() {
    let mut rows: Vec<Row> = Vec::new();
    for i in 0..4 {
        let mut cells: Vec<Cell> = Vec::new();
        for j in 0..4 {
            cells.push(Cell::raw(&format!("{i}*{j} = {}", i * j)));
        }
        rows.push(Row::new(cells));
    }
    let table = Table::new(rows, Vec::new()).widths(vec![Constraint::Percentage(25); 4]);

    let expected_rows: Vec<Row> = vec![
        Row::from_strs(vec!["0*0 = 0", "0*1 = 0", "0*2 = 0", "0*3 = 0"]),
        Row::from_strs(vec!["1*0 = 0", "1*1 = 1", "1*2 = 2", "1*3 = 3"]),
        Row::from_strs(vec!["2*0 = 0", "2*1 = 2", "2*2 = 4", "2*3 = 6"]),
        Row::from_strs(vec!["3*0 = 0", "3*1 = 3", "3*2 = 6", "3*3 = 9"]),
    ];

    assert_eq!(table.rows, expected_rows);
    assert_eq!(table.widths, vec![Constraint::Percentage(25); 4]);
}

#[test]
fn widths() {
    let table = Table::default().widths(vec![Constraint::Length(100)]);
    assert_eq!(table.widths, vec![Constraint::Length(100)]);

    let table = Table::default().widths([Constraint::Length(100)].to_vec());
    assert_eq!(table.widths, vec![Constraint::Length(100)]);

    let table = Table::default().widths(vec![Constraint::Length(100)].clone());
    assert_eq!(table.widths, vec![Constraint::Length(100)]);

    let widths_ref = &vec![Constraint::Length(100)];
    let table = Table::default().widths(widths_ref.clone());
    assert_eq!(table.widths, vec![Constraint::Length(100)]);

    let table = Table::default().widths([100u16].iter().map(|c| Constraint::Length(*c)).collect());
    assert_eq!(table.widths, vec![Constraint::Length(100)]);
}

#[test]
fn table_rows() {
    let rows = vec![Row::new(vec![Cell::raw("")])];
    let table = Table::default().rows(rows.clone());
    assert_eq!(table.rows, rows);
}

#[test]
fn column_spacing() {
    let table = Table::default().column_spacing(2);
    assert_eq!(table.column_spacing, 2);
}

#[test]
fn block() {
    let block = Block::default().title("Table").borders(Borders::all());
    let table = Table::default().block(block.clone());
    assert_eq!(table.block, Some(block));
}

#[test]
fn header() {
    let header = Row::new(vec![Cell::raw("")]);
    let table = Table::default().header(header.clone());
    assert_eq!(table.header, Some(header));
}

#[test]
fn footer() {
    let footer = Row::new(vec![Cell::raw("")]);
    let table = Table::default().footer(footer.clone());
    assert_eq!(table.footer, Some(footer));
}

#[test]
fn highlight_style() {
    let style = Style::default().red().italic();
    let table = Table::default().highlight_style(style);
    assert_eq!(table.highlight_style, style);
}

#[test]
fn highlight_symbol() {
    let table = Table::default().highlight_symbol(Text::raw(">>"));
    assert_eq!(table.highlight_symbol, Text::raw(">>"));
}

#[test]
fn highlight_spacing() {
    let table = Table::default().highlight_spacing(HighlightSpacing::Always);
    assert_eq!(table.highlight_spacing, HighlightSpacing::Always);
}

#[test]
fn table_invalid_percentages() {
    // percentages above 100 are rejected wherever constraints enter
    assert!(!tui_core::table::ensure_percentages_less_than_100(&vec![
        Constraint::Percentage(110)
    ]));
}

#[test]
fn widths_conversions() {
    let array = [Constraint::Percentage(100)];
    let table = Table::new(Vec::<Row>::new(), array.to_vec());
    assert_eq!(table.widths, vec![Constraint::Percentage(100)], "array");

    let array_ref = &[Constraint::Percentage(100)];
    let table = Table::new(Vec::<Row>::new(), array_ref.to_vec());
    assert_eq!(table.widths, vec![Constraint::Percentage(100)], "array ref");

    let vec = vec![Constraint::Percentage(100)];
    let slice = vec.as_slice();
    let table = Table::new(Vec::<Row>::new(), slice.to_vec());
    assert_eq!(table.widths, vec![Constraint::Percentage(100)], "slice");

    let vec = vec![Constraint::Percentage(100)];
    let table = Table::new(Vec::<Row>::new(), vec);
    assert_eq!(table.widths, vec![Constraint::Percentage(100)], "vec");

    let vec_ref = &vec![Constraint::Percentage(100)];
    let table = Table::new(Vec::<Row>::new(), vec_ref.clone());
    assert_eq!(table.widths, vec![Constraint::Percentage(100)], "vec ref");
}

fn lines(strs: Vec<&str>) -> Vec<Line> {
    strs.into_iter().map(Line::raw).collect()
}

#[test]
fn render_empty_area() {
    let mut buf = Buffer::empty(Rect::new(0, 0, 15, 3));
    let rows = vec![Row::from_strs(vec!["Cell1", "Cell2"])];
    let table = Table::new(rows, vec![Constraint::Length(5); 2]);
    table.render(Rect::new(0, 0, 0, 0), &mut buf);
    assert_eq!(buf, Buffer::empty(Rect::new(0, 0, 15, 3)));
}

#[test]
fn render_default() {
    let mut buf = Buffer::empty(Rect::new(0, 0, 15, 3));
    let table = Table::default();
    table.render(Rect::new(0, 0, 15, 3), &mut buf);
    assert_eq!(buf, Buffer::empty(Rect::new(0, 0, 15, 3)));
}

#[test]
fn render_with_block() {
    let mut buf = Buffer::empty(Rect::new(0, 0, 15, 3));
    let rows = vec![
        Row::from_strs(vec!["Cell1", "Cell2"]),
        Row::from_strs(vec!["Cell3", "Cell4"]),
    ];
    let block = Block::new().borders(Borders::all()).title("Block");
    let table = Table::new(rows, vec![Constraint::Length(5); 2]).block(block);
    table.render(Rect::new(0, 0, 15, 3), &mut buf);
    let expected = Buffer::with_lines(lines(vec![
        "┌Block────────┐",
        "│Cell1 Cell2  │",
        "└─────────────┘",
    ]));
    assert_eq!(buf, expected);
}

#[test]
fn render_with_header() {
    let mut buf = Buffer::empty(Rect::new(0, 0, 15, 3));
    let header = Row::from_strs(vec!["Head1", "Head2"]);
    let rows = vec![
        Row::from_strs(vec!["Cell1", "Cell2"]),
        Row::from_strs(vec!["Cell3", "Cell4"]),
    ];
    let table = Table::new(rows, vec![Constraint::Length(5); 2]).header(header);
    table.render(Rect::new(0, 0, 15, 3), &mut buf);
    let expected = Buffer::with_lines(lines(vec![
        "Head1 Head2    ",
        "Cell1 Cell2    ",
        "Cell3 Cell4    ",
    ]));
    assert_eq!(buf, expected);
}

#[test]
fn render_with_footer() {
    let mut buf = Buffer::empty(Rect::new(0, 0, 15, 3));
    let footer = Row::from_strs(vec!["Foot1", "Foot2"]);
    let rows = vec![
        Row::from_strs(vec!["Cell1", "Cell2"]),
        Row::from_strs(vec!["Cell3", "Cell4"]),
    ];
    let table = Table::new(rows, vec![Constraint::Length(5); 2]).footer(footer);
    table.render(Rect::new(0, 0, 15, 3), &mut buf);
    let expected = Buffer::with_lines(lines(vec![
        "Cell1 Cell2    ",
        "Cell3 Cell4    ",
        "Foot1 Foot2    ",
    ]));
    assert_eq!(buf, expected);
}

#[test]
fn render_with_header_and_footer() {
    let mut buf = Buffer::empty(Rect::new(0, 0, 15, 3));
    let header = Row::from_strs(vec!["Head1", "Head2"]);
    let footer = Row::from_strs(vec!["Foot1", "Foot2"]);
    let rows = vec![Row::from_strs(vec!["Cell1", "Cell2"])];
    let table = Table::new(rows, vec![Constraint::Length(5); 2])
        .header(header)
        .footer(footer);
    table.render(Rect::new(0, 0, 15, 3), &mut buf);
    let expected = Buffer::with_lines(lines(vec![
        "Head1 Head2    ",
        "Cell1 Cell2    ",
        "Foot1 Foot2    ",
    ]));
    assert_eq!(buf, expected);
}

#[test]
fn render_with_header_margin() {
    let mut buf = Buffer::empty(Rect::new(0, 0, 15, 3));
    let header = Row::from_strs(vec!["Head1", "Head2"]).bottom_margin(1);
    let rows = vec![
        Row::from_strs(vec!["Cell1", "Cell2"]),
        Row::from_strs(vec!["Cell3", "Cell4"]),
    ];
    let table = Table::new(rows, vec![Constraint::Length(5); 2]).header(header);
    table.render(Rect::new(0, 0, 15, 3), &mut buf);
    let expected = Buffer::with_lines(lines(vec![
        "Head1 Head2    ",
        "               ",
        "Cell1 Cell2    ",
    ]));
    assert_eq!(buf, expected);
}

#[test]
fn render_with_footer_margin() {
    let mut buf = Buffer::empty(Rect::new(0, 0, 15, 3));
    let footer = Row::from_strs(vec!["Foot1", "Foot2"]).top_margin(1);
    let rows = vec![Row::from_strs(vec!["Cell1", "Cell2"])];
    let table = Table::new(rows, vec![Constraint::Length(5); 2]).footer(footer);
    table.render(Rect::new(0, 0, 15, 3), &mut buf);
    let expected = Buffer::with_lines(lines(vec![
        "Cell1 Cell2    ",
        "               ",
        "Foot1 Foot2    ",
    ]));
    assert_eq!(buf, expected);
}

#[test]
fn render_with_row_margin() {
    let mut buf = Buffer::empty(Rect::new(0, 0, 15, 3));
    let rows = vec![
        Row::from_strs(vec!["Cell1", "Cell2"]).bottom_margin(1),
        Row::from_strs(vec!["Cell3", "Cell4"]),
    ];
    let table = Table::new(rows, vec![Constraint::Length(5); 2]);
    table.render(Rect::new(0, 0, 15, 3), &mut buf);
    let expected = Buffer::with_lines(lines(vec![
        "Cell1 Cell2    ",
        "               ",
        "Cell3 Cell4    ",
    ]));
    assert_eq!(buf, expected);
}

#[test]
fn render_with_alignment() {
    let mut buf = Buffer::empty(Rect::new(0, 0, 15, 3));
    let rows = vec![
        Row::new(vec![Cell::from_text(Text::from_line(
            Line::raw("Left").alignment(Alignment::Left),
        ))]),
        Row::new(vec![Cell::from_text(Text::from_line(
            Line::raw("Center").alignment(Alignment::Center),
        ))]),
        Row::new(vec![Cell::from_text(Text::from_line(
            Line::raw("Right").alignment(Alignment::Right),
        ))]),
    ];
    let table = Table::new(rows, vec![Percentage(100)]);
    table.render(Rect::new(0, 0, 15, 3), &mut buf);
    let expected = Buffer::with_lines(lines(vec![
        "Left           ",
        "    Center     ",
        "          Right",
    ]));
    assert_eq!(buf, expected);
}

#[test]
fn render_with_overflow_does_not_panic() {
    let mut buf = Buffer::empty(Rect::new(0, 0, 20, 3));
    let table = Table::new(Vec::<Row>::new(), vec![Constraint::Min(20); 1])
        .header(Row::new(vec![Cell::from_text(Text::from_line(
            Line::raw("").alignment(Alignment::Right),
        ))]))
        .footer(Row::new(vec![Cell::from_text(Text::from_line(
            Line::raw("").alignment(Alignment::Right),
        ))]));
    table.render(Rect::new(0, 0, 20, 3), &mut buf);
}

#[test]
fn render_with_selected() {
    let mut buf = Buffer::empty(Rect::new(0, 0, 15, 3));
    let rows = vec![
        Row::from_strs(vec!["Cell1", "Cell2"]),
        Row::from_strs(vec!["Cell3", "Cell4"]),
    ];
    let table = Table::new(rows, vec![Constraint::Length(5); 2])
        .highlight_style(Style::new().red())
        .highlight_symbol(Text::raw(">>"));
    let mut state = TableState::new().with_selected(Some(0));
    table.render_stateful(Rect::new(0, 0, 15, 3), &mut buf, &mut state);
    let expected = Buffer::with_lines(vec![
        Line::styled(">>Cell1 Cell2  ", Style::new().red()),
        Line::raw("  Cell3 Cell4  "),
        Line::raw("               "),
    ]);
    assert_eq!(buf, expected);
}

#[test]
fn length_constraint() {
    // without selection, more than needed width
    let table = Table::default().widths(vec![Length(4), Length(4)]);
    assert_eq!(table.get_columns_widths(20, 0), [(0, 4), (5, 4)]);

    // with selection, more than needed width
    let table = Table::default().widths(vec![Length(4), Length(4)]);
    assert_eq!(table.get_columns_widths(20, 3), [(3, 4), (8, 4)]);

    // without selection, less than needed width
    let table = Table::default().widths(vec![Length(4), Length(4)]);
    assert_eq!(table.get_columns_widths(7, 0), [(0, 4), (5, 2)]);

    // with selection, less than needed width
    // column spacing is always prioritized
    let table = Table::default().widths(vec![Length(4), Length(4)]);
    assert_eq!(table.get_columns_widths(7, 3), [(3, 3), (7, 0)]);
}

#[test]
fn max_constraint() {
    // without selection, more than needed width
    let table = Table::default().widths(vec![Max(4), Max(4)]);
    assert_eq!(table.get_columns_widths(20, 0), [(0, 4), (5, 4)]);

    // with selection, more than needed width
    let table = Table::default().widths(vec![Max(4), Max(4)]);
    assert_eq!(table.get_columns_widths(20, 3), [(3, 4), (8, 4)]);

    // without selection, less than needed width
    let table = Table::default().widths(vec![Max(4), Max(4)]);
    assert_eq!(table.get_columns_widths(7, 0), [(0, 4), (5, 2)]);

    // with selection, less than needed width
    let table = Table::default().widths(vec![Max(4), Max(4)]);
    assert_eq!(table.get_columns_widths(7, 3), [(3, 3), (7, 0)]);
}

#[test]
fn min_constraint() {
    // a `Min` constraint does not grow beyond its bound to use the
    // possible available length

    // without selection, more than needed width
    let table = Table::default().widths(vec![Min(4), Min(4)]);
    assert_eq!(table.get_columns_widths(20, 0), [(0, 4), (5, 4)]);

    // with selection, more than needed width
    let table = Table::default().widths(vec![Min(4), Min(4)]);
    assert_eq!(table.get_columns_widths(20, 3), [(3, 4), (8, 4)]);

    // without selection, less than needed width
    // allocates the spacer
    let table = Table::default().widths(vec![Min(4), Min(4)]);
    assert_eq!(table.get_columns_widths(7, 0), [(0, 4), (5, 2)]);

    // with selection, less than needed width
    // always allocates selection and spacer
    let table = Table::default().widths(vec![Min(4), Min(4)]);
    assert_eq!(table.get_columns_widths(7, 3), [(3, 3), (7, 0)]);
}

#[test]
fn percentage_constraint() {
    // without selection, more than needed width
    let table = Table::default().widths(vec![Percentage(30), Percentage(30)]);
    assert_eq!(table.get_columns_widths(20, 0), [(0, 6), (7, 6)]);

    // with selection, more than needed width
    let table = Table::default().widths(vec![Percentage(30), Percentage(30)]);
    assert_eq!(table.get_columns_widths(20, 3), [(3, 5), (9, 5)]);

    // without selection, less than needed width
    let table = Table::default().widths(vec![Percentage(30), Percentage(30)]);
    assert_eq!(table.get_columns_widths(7, 0), [(0, 2), (3, 2)]);

    // with selection, less than needed width
    let table = Table::default().widths(vec![Percentage(30), Percentage(30)]);
    assert_eq!(table.get_columns_widths(7, 3), [(3, 1), (5, 1)]);
}

#[test]
fn ratio_constraint() {
    // without selection, more than needed width
    let table = Table::default().widths(vec![Ratio(1, 3), Ratio(1, 3)]);
    assert_eq!(table.get_columns_widths(20, 0), [(0, 7), (8, 6)]);

    // with selection, more than needed width
    let table = Table::default().widths(vec![Ratio(1, 3), Ratio(1, 3)]);
    assert_eq!(table.get_columns_widths(20, 3), [(3, 6), (10, 5)]);

    // without selection, less than needed width
    let table = Table::default().widths(vec![Ratio(1, 3), Ratio(1, 3)]);
    assert_eq!(table.get_columns_widths(7, 0), [(0, 2), (3, 3)]);

    // with selection, less than needed width
    let table = Table::default().widths(vec![Ratio(1, 3), Ratio(1, 3)]);
    assert_eq!(table.get_columns_widths(7, 3), [(3, 1), (5, 2)]);
}

#[test]
fn no_constraint_with_rows() {
    let table = Table::default()
        .rows(vec![
            Row::from_strs(vec!["a", "b"]),
            Row::from_strs(vec!["c", "d", "e"]),
        ])
        // rows get precedence over the header
        .header(Row::from_strs(vec!["f", "g"]))
        .footer(Row::from_strs(vec!["h", "i"]))
        .column_spacing(0);
    assert_eq!(
        table.get_columns_widths(30, 0),
        [(0, 10), (10, 10), (20, 10)]
    )
}

#[test]
fn no_constraint_with_header() {
    let table = Table::default()
        .rows(vec![])
        .header(Row::from_strs(vec!["f", "g"]))
        .column_spacing(0);
    assert_eq!(table.get_columns_widths(10, 0), [(0, 5), (5, 5)])
}

#[test]
fn no_constraint_with_footer() {
    let table = Table::default()
        .rows(vec![])
        .footer(Row::from_strs(vec!["h", "i"]))
        .column_spacing(0);
    assert_eq!(table.get_columns_widths(10, 0), [(0, 5), (5, 5)])
}

fn test_table_with_selection(
    highlight_spacing: HighlightSpacing,
    columns: u16,
    spacing: u16,
    selection: Option<usize>,
) -> Buffer {
    let table = Table::default()
        .rows(vec![Row::from_strs(vec!["ABCDE", "12345"])])
        .highlight_spacing(highlight_spacing)
        .highlight_symbol(Text::raw(">>>"))
        .column_spacing(spacing);
    let area = Rect::new(0, 0, columns, 3);
    let mut buf = Buffer::empty(area);
    let mut state = TableState::default().with_selected(selection);
    table.render_stateful(area, &mut buf, &mut state);
    buf
}

#[test]
fn excess_area_highlight_symbol_and_column_spacing_allocation() {
    // no highlight symbol rendered ever
    assert_eq!(
        test_table_with_selection(
            HighlightSpacing::Never,
            15,   // width
            0,    // spacing
            None, // selection
        ),
        Buffer::with_lines(lines(vec![
            "ABCDE  12345   ", /* default layout is left-packed but column length
                                * constraints are computed as `max_area / n_columns`,
                                * i.e. they are distributed among the available space */
            "               ", // row 2
            "               ", // row 3
        ]))
    );

    let table = Table::default()
        .rows(vec![Row::from_strs(vec!["ABCDE", "12345"])])
        .widths(vec![Length(5), Length(5)])
        .column_spacing(0);
    let area = Rect::new(0, 0, 15, 3);
    let mut buf = Buffer::empty(area);
    table.render(area, &mut buf);
    assert_eq!(
        buf,
        Buffer::with_lines(lines(vec![
            "ABCDE12345     ", /* this is what happens when the widths are given
                                * by hand */
            "               ", // row 2
            "               ", // row 3
        ]))
    );

    // no highlight symbol rendered ever
    assert_eq!(
        test_table_with_selection(
            HighlightSpacing::Never,
            15,      // width
            0,       // spacing
            Some(0), // selection
        ),
        Buffer::with_lines(lines(vec![
            "ABCDE  12345   ", // row 1
            "               ", // row 2
            "               ", // row 3
        ]))
    );

    // no highlight symbol rendered because no selection is made
    assert_eq!(
        test_table_with_selection(
            HighlightSpacing::WhenSelected,
            15,   // width
            0,    // spacing
            None, // selection
        ),
        Buffer::with_lines(lines(vec![
            "ABCDE  12345   ", // row 1
            "               ", // row 2
            "               ", // row 3
        ]))
    );
    // highlight symbol rendered because selection is made
    assert_eq!(
        test_table_with_selection(
            HighlightSpacing::WhenSelected,
            15,      // width
            0,       // spacing
            Some(0), // selection
        ),
        Buffer::with_lines(lines(vec![
            ">>>ABCDE  12345", // row 1
            "               ", // row 2
            "               ", // row 3
        ]))
    );

    // highlight symbol always rendered even when no selection is made
    assert_eq!(
        test_table_with_selection(
            HighlightSpacing::Always,
            15,   // width
            0,    // spacing
            None, // selection
        ),
        Buffer::with_lines(lines(vec![
            "   ABCDE  12345", // row 1
            "               ", // row 2
            "               ", // row 3
        ]))
    );

    // highlight symbol rendered because the spacing is always allocated
    assert_eq!(
        test_table_with_selection(
            HighlightSpacing::Always,
            15,      // width
            0,       // spacing
            Some(0), // selection
        ),
        Buffer::with_lines(lines(vec![
            ">>>ABCDE  12345", // row 1
            "               ", // row 2
            "               ", // row 3
        ]))
    );
}

#[test]
fn insufficient_area_highlight_symbol_allocation_with_no_column_spacing() {
    assert_eq!(
        test_table_with_selection(
            HighlightSpacing::Never,
            10,   // width
            0,    // spacing
            None, // selection
        ),
        Buffer::with_lines(lines(vec![
            "ABCDE12345", // row 1
            "          ", // row 2
            "          ", // row 3
        ]))
    );
    assert_eq!(
        test_table_with_selection(
            HighlightSpacing::WhenSelected,
            10,   // width
            0,    // spacing
            None, // selection
        ),
        Buffer::with_lines(lines(vec![
            "ABCDE12345", // row 1
            "          ", // row 2
            "          ", // row 3
        ]))
    );
    // the highlight symbol column is split off before the column
    // widths are computed, so it takes space even from fixed-length
    // columns
    assert_eq!(
        test_table_with_selection(
            HighlightSpacing::Always,
            10,   // width
            0,    // spacing
            None, // selection
        ),
        Buffer::with_lines(lines(vec![
            "   ABCDE12", // highlight column and spacing are prioritized
            "          ", // row 2
            "          ", // row 3
        ]))
    );
    assert_eq!(
        test_table_with_selection(
            HighlightSpacing::Never,
            10,      // width
            0,       // spacing
            Some(0), // selection
        ),
        Buffer::with_lines(lines(vec![
            "ABCDE12345", // row 1
            "          ", // row 2
            "          ", // row 3
        ]))
    );
    assert_eq!(
        test_table_with_selection(
            HighlightSpacing::WhenSelected,
            10,      // width
            0,       // spacing
            Some(0), // selection
        ),
        Buffer::with_lines(lines(vec![
            ">>>ABCDE12", // highlight column and spacing are prioritized
            "          ", // row 2
            "          ", // row 3
        ]))
    );
    assert_eq!(
        test_table_with_selection(
            HighlightSpacing::Always,
            10,      // width
            0,       // spacing
            Some(0), // selection
        ),
        Buffer::with_lines(lines(vec![
            ">>>ABCDE12", // highlight column and spacing are prioritized
            "          ", // row 2
            "          ", // row 3
        ]))
    );
}

#[test]
fn table_stylize() {
    assert_eq!(
        Table::new(
            vec![Row::new(vec![Cell::raw("")])],
            vec![Percentage(100)]
        )
        .black()
        .on_white()
        .bold()
        .not_crossed_out()
        .style,
        Style::default()
            .fg(Color::Black)
            .bg(Color::White)
            .add_modifier(Modifier::bold())
            .remove_modifier(Modifier::crossed_out())
    )
}
