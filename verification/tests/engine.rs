//! The rendering core: the layout solver, the cell buffer and the diff
//! engine, exercised on concrete values.
use tui_core::buffer::Buffer;
use tui_core::cell::Cell;
use tui_core::chart::{GraphType, LegendPosition};
use tui_core::canvas::{BrailleGrid, CharGrid, HalfBlockGrid};
use tui_core::constraint::{Axis, Constraint, Flex};
use tui_core::diff::{apply_patches, diff};
use tui_core::position::Position;
use tui_core::rect::Rect;
use tui_core::solver::solve;
use tui_core::style::{Color, Style};
use tui_core::text::Line;

#[test]
fn graph_type_to_string() {
    assert_eq!(GraphType::Scatter.to_string(), "Scatter");
    assert_eq!(GraphType::Line.to_string(), "Line");
}

#[test]
fn graph_type_from_str() {
    assert_eq!("Scatter".parse::<GraphType>(), Ok(GraphType::Scatter));
    assert_eq!("Line".parse::<GraphType>(), Ok(GraphType::Line));
    assert_eq!("".parse::<GraphType>(), Err(()));
}

#[test]
fn solve_halves_scenario() {
    let rects = solve(
        Rect::new(0, 0, 2, 1),
        Axis::Horizontal,
        &vec![Constraint::Percentage(50), Constraint::Percentage(50)],
        Flex::Start,
        0,
    );
    assert_eq!(rects, vec![Rect::new(0, 0, 1, 1), Rect::new(1, 0, 1, 1)]);
}

#[test]
fn solve_is_deterministic() {
    let constraints = vec![
        Constraint::Length(10),
        Constraint::Percentage(30),
        Constraint::Ratio(1, 4),
        Constraint::Min(5),
        Constraint::Max(8),
        Constraint::Fill(2),
    ];
    let area = Rect::new(3, 7, 100, 9);
    let first = solve(area, Axis::Horizontal, &constraints, Flex::SpaceAround, 2);
    let second = solve(area, Axis::Horizontal, &constraints, Flex::SpaceAround, 2);
    assert_eq!(first, second);
}

#[test]
fn solve_covers_the_area() {
    let constraints = vec![
        Constraint::Length(10),
        Constraint::Percentage(30),
        Constraint::Ratio(1, 4),
        Constraint::Min(5),
        Constraint::Max(8),
        Constraint::Fill(2),
    ];
    let flexes = vec![
        Flex::Start,
        Flex::End,
        Flex::Center,
        Flex::SpaceBetween,
        Flex::SpaceAround,
        Flex::Legacy,
    ];
    for flex in flexes {
        let area = Rect::new(5, 2, 100, 4);
        let rects = solve(area, Axis::Horizontal, &constraints, flex, 2);
        assert_eq!(rects.len(), constraints.len());
        let mut covered: u32 = 0;
        let mut last_end: u16 = area.x;
        for rect in &rects {
            // in declaration order, pairwise disjoint, inside the area
            assert!(rect.x >= last_end);
            assert!(rect.x + rect.width <= area.x + area.width);
            assert_eq!(rect.y, area.y);
            assert_eq!(rect.height, area.height);
            covered += rect.width as u32;
            last_end = rect.x + rect.width;
        }
        // segments plus gaps split the main extent exactly
        let gaps: u32 = area.width as u32 - covered;
        assert_eq!(covered + gaps, area.width as u32);
        // the stretching mode consumes every cell
        if flex == Flex::Legacy {
            assert_eq!(last_end, area.x + area.width);
        }
    }
}

#[test]
fn solve_spacing_exceeding_area_degenerates() {
    let rects = solve(
        Rect::new(0, 0, 3, 1),
        Axis::Horizontal,
        &vec![Constraint::Length(2); 4],
        Flex::Start,
        5,
    );
    for rect in &rects {
        assert_eq!(rect.width, 0);
    }
}

#[test]
fn solve_vertical_axis() {
    let rects = solve(
        Rect::new(0, 0, 4, 10),
        Axis::Vertical,
        &vec![Constraint::Length(3), Constraint::Fill(1)],
        Flex::Start,
        0,
    );
    assert_eq!(rects, vec![Rect::new(0, 0, 4, 3), Rect::new(0, 3, 4, 7)]);
}

#[test]
fn diff_of_identical_buffers_is_empty() {
    let buf = Buffer::with_lines(vec![Line::raw("hello"), Line::raw("world")]);
    let patches = diff(&buf, &buf);
    assert_eq!(patches.len(), 0);
}

#[test]
fn diff_default_equivalent_content_is_empty() {
    // trailing blanks written by a renderer equal untouched blank cells
    let written = Buffer::with_lines(vec![Line::raw("foo  ")]);
    let mut sparse = Buffer::empty(Rect::new(0, 0, 5, 1));
    sparse.set_string(0, 0, "foo", Style::new());
    assert_eq!(diff(&written, &sparse).len(), 0);
    assert_eq!(diff(&sparse, &written).len(), 0);
}

#[test]
fn diff_round_trip_restores_the_target() {
    let area = Rect::new(0, 0, 8, 2);
    let mut a = Buffer::empty(area);
    a.set_string(0, 0, "old text", Style::new());
    a.set(1, 1, Cell::styled('\u{4E00}', Style::new()));
    let mut b = Buffer::empty(area);
    b.set_string(0, 0, "new", Style::new().red());
    b.set(4, 1, Cell::styled('\u{4E00}', Style::new()));

    let patches = diff(&a, &b);
    let mut replayed = a.clone();
    apply_patches(&mut replayed, &patches);
    assert_eq!(replayed, b);
}

#[test]
fn wide_glyph_masks_its_companion() {
    let area = Rect::new(0, 0, 4, 1);
    let base = Buffer::empty(area);
    let mut painted = Buffer::empty(area);
    painted.set(1, 0, Cell::styled('\u{4E00}', Style::new()));

    // the companion cell is skip-marked, so exactly one patch comes out
    assert!(painted.get(2, 0).skip);
    let patches = diff(&base, &painted);
    assert_eq!(patches.len(), 1);
    assert_eq!(patches[0].position, Position::new(1, 0));
    assert_eq!(patches[0].cell.symbol, '\u{4E00}');
}

#[test]
fn overwriting_a_wide_glyph_clears_its_companion() {
    let area = Rect::new(0, 0, 4, 1);
    let mut buf = Buffer::empty(area);
    buf.set(0, 0, Cell::styled('\u{4E00}', Style::new()));
    assert!(buf.get(1, 0).skip);
    buf.set(0, 0, Cell::styled('x', Style::new()));
    assert!(!buf.get(1, 0).skip);
    assert_eq!(buf.get(1, 0).symbol, ' ');
}

#[test]
fn overwriting_a_hidden_half_clears_the_glyph() {
    let area = Rect::new(0, 0, 4, 1);
    let mut buf = Buffer::empty(area);
    buf.set(0, 0, Cell::styled('\u{4E00}', Style::new()));
    assert!(buf.get(1, 0).skip);
    // writing onto the hidden half removes the glyph it belonged to
    buf.set(1, 0, Cell::styled('x', Style::new()));
    assert_eq!(buf.get(0, 0).symbol, ' ');
    assert!(!buf.get(1, 0).skip);
    assert_eq!(buf.get(1, 0).symbol, 'x');
}

#[test]
fn styling_leaves_hidden_halves_blank() {
    let area = Rect::new(0, 0, 4, 1);
    let mut buf = Buffer::empty(area);
    buf.set(0, 0, Cell::styled('\u{4E00}', Style::new()));
    buf.set_style(area, Style::new().on_blue());
    // the glyph cell takes the style; its hidden half stays canonical
    assert_eq!(buf.get(0, 0).bg, Color::Blue);
    assert_eq!(buf.get(1, 0).bg, Color::Reset);
    assert!(buf.get(1, 0).skip);
}

#[test]
fn merge_treats_blank_cells_as_transparent() {
    let mut base = Buffer::with_lines(vec![Line::raw("abcd")]);
    let mut overlay = Buffer::empty(Rect::new(0, 0, 2, 1));
    overlay.set(0, 0, Cell::styled('z', Style::new()));
    base.merge(&overlay, Position::new(1, 0));
    assert_eq!(base, Buffer::with_lines(vec![Line::raw("azcd")]));
}

#[test]
fn rect_area_never_exceeds_the_cell_range() {
    let samples = vec![
        (0u16, 0u16),
        (1, 65535),
        (65535, 1),
        (65535, 65535),
        (900, 100),
        (256, 256),
        (300, 300),
        (40000, 3),
    ];
    for (w, h) in samples {
        let rect = Rect::new(0, 0, w, h);
        assert!(rect.width as u32 * rect.height as u32 <= 65535);
    }
}

#[test]
fn braille_grid_accumulates_dots() {
    let mut grid = BrailleGrid::new(2, 1);
    grid.paint(0, 0, Color::Red);
    grid.paint(0, 1, Color::Red);
    let layer = grid.save();
    assert_eq!(layer.chars.len(), 2);
    // the two left-column dots of the first cell
    assert_eq!(layer.chars[0], '\u{2803}');
    assert_eq!(layer.chars[1], '\u{2800}');
    assert_eq!(layer.colors[0], (Color::Red, Color::Reset));
    grid.reset();
    assert_eq!(grid.save().chars[0], '\u{2800}');
}

#[test]
fn char_grid_paints_its_character() {
    let mut grid = CharGrid::new(3, 1, '\u{2022}');
    grid.paint(1, 0, Color::Blue);
    let layer = grid.save();
    assert_eq!(layer.chars, vec![' ', '\u{2022}', ' ']);
    assert_eq!(layer.colors[1], (Color::Blue, Color::Reset));
    // painting outside the grid is a no-op
    grid.paint(9, 9, Color::Blue);
    assert_eq!(grid.save().chars, vec![' ', '\u{2022}', ' ']);
}

#[test]
fn half_block_grid_collapses_equal_halves() {
    let mut grid = HalfBlockGrid::new(3, 1);
    // both halves the same color: a full block, not an upper half
    grid.paint(0, 0, Color::Green);
    grid.paint(0, 1, Color::Green);
    // only the lower half
    grid.paint(1, 1, Color::Red);
    // different colors: upper half glyph with both colors
    grid.paint(2, 0, Color::Blue);
    grid.paint(2, 1, Color::Yellow);
    let layer = grid.save();
    assert_eq!(
        layer.chars,
        vec!['\u{2588}', '\u{2584}', '\u{2580}']
    );
    assert_eq!(layer.colors[0], (Color::Green, Color::Green));
    assert_eq!(layer.colors[1], (Color::Red, Color::Reset));
    assert_eq!(layer.colors[2], (Color::Blue, Color::Yellow));
}

#[test]
fn chart_layout_reserves_label_rows_and_columns() {
    let area = Rect::new(0, 0, 20, 10);
    let space = tui_core::chart::max_width_of_labels_left_of_y_axis(
        &vec![2, 4, 3],
        Some(4),
        tui_core::text::Alignment::Left,
        true,
        area.width,
    );
    assert_eq!(space, 4);
    let layout = tui_core::chart::chart_layout(area, true, true, space, None, None);
    // the bottom row goes to the x labels, the next to the x axis
    assert_eq!(layout.label_x, Some(9));
    assert_eq!(layout.axis_x, Some(8));
    // the left columns go to the y labels, then the y axis
    assert_eq!(layout.label_y, Some(0));
    assert_eq!(layout.axis_y, Some(4));
    // the graph takes the rest
    assert_eq!(layout.graph_area, Rect::new(5, 0, 15, 8));
}

#[test]
fn x_labels_lean_center_and_flush() {
    let chart_area = Rect::new(0, 0, 20, 10);
    let graph_area = Rect::new(5, 0, 15, 8);
    let n = 3;
    // the first label leans into the reserved columns and flips its
    // alignment
    let (la, align) = tui_core::chart::x_label_area(
        chart_area,
        graph_area,
        9,
        0,
        n,
        4,
        tui_core::text::Alignment::Left,
    );
    assert_eq!(la, Rect::new(0, 9, 5, 1));
    assert_eq!(align, tui_core::text::Alignment::Right);
    // middle labels center between their ticks with one spare column
    let (la, align) = tui_core::chart::x_label_area(
        chart_area,
        graph_area,
        9,
        1,
        n,
        4,
        tui_core::text::Alignment::Left,
    );
    assert_eq!(la, Rect::new(11, 9, 4, 1));
    assert_eq!(align, tui_core::text::Alignment::Center);
    // the last label ends flush with the graph's right edge
    let (la, align) = tui_core::chart::x_label_area(
        chart_area,
        graph_area,
        9,
        2,
        n,
        4,
        tui_core::text::Alignment::Left,
    );
    assert_eq!(la, Rect::new(15, 9, 5, 1));
    assert_eq!(align, tui_core::text::Alignment::Right);
}

#[test]
fn legend_takes_the_top_right_corner() {
    let area = Rect::new(0, 0, 30, 20);
    let layout = LegendPosition::TopRight.layout(area, 5, 3, 0, 0);
    assert_eq!(layout, Some(Rect::new(25, 0, 5, 3)));
}

#[test]
fn legend_yields_when_the_area_is_too_small() {
    let area = Rect::new(0, 0, 10, 3);
    let layout = LegendPosition::Bottom.layout(area, 10, 3, 4, 4);
    assert_eq!(layout, None);
}

#[test]
fn screen_commits_frames_and_swaps() {
    let area = Rect::new(0, 0, 5, 1);
    let mut screen = tui_core::screen::Screen::new(area);

    let frame = Buffer::with_lines(vec![Line::raw("hello")]);
    let patches = screen.commit(frame.clone());
    assert_eq!(patches.len(), 5);

    // the same frame again: the terminal is already in sync
    let patches = screen.commit(frame.clone());
    assert_eq!(patches.len(), 0);

    // a resize discards the previous frame: everything repaints
    screen.resize(area);
    let patches = screen.commit(frame);
    assert_eq!(patches.len(), 5);
}

#[test]
fn text_width_counts_columns() {
    // a wide glyph takes two columns; this exercises the width tables
    // of the real character-width crate
    let narrow = tui_core::text::Text::raw("ab");
    assert_eq!(narrow.width(), 2);
    let wide = tui_core::text::Text::raw("\u{4E00}b");
    assert_eq!(wide.width(), 3);
}
