//! Text blocks: construction, styling and rendering into buffers.
use tui_core::buffer::Buffer;
use tui_core::rect::Rect;
use tui_core::style::{Color, Modifier, Style};
use tui_core::text::{Alignment, Line, Span, Text};

#[test]
fn raw() {
    let text = Text::raw("The first line\nThe second line");
    assert_eq!(
        text.lines,
        vec![Line::raw("The first line"), Line::raw("The second line")]
    );
}

#[test]
fn styled() {
    let style = Style::new().yellow().italic();
    let styled_text = Text::styled("The first line\nThe second line", style);

    let mut text = Text::raw("The first line\nThe second line");
    text.style = style;

    assert_eq!(styled_text, text);
}

#[test]
fn width() {
    let text = Text::raw("The first line\nThe second line");
    assert_eq!(15, text.width());
}

#[test]
fn height() {
    let text = Text::raw("The first line\nThe second line");
    assert_eq!(2, text.height());
}

#[test]
fn patch_style() {
    let style = Style::new().yellow().italic();
    let style2 = Style::new().red().underlined();
    let text = Text::styled("The first line\nThe second line", style).patch_style(style2);

    let expected_style = Style::new().red().italic().underlined();
    let expected_text = Text::styled("The first line\nThe second line", expected_style);

    assert_eq!(text, expected_text);
}

#[test]
fn reset_style() {
    let style = Style::new().yellow().italic();
    let text = Text::styled("The first line\nThe second line", style).reset_style();

    assert_eq!(text.style, Style::reset());
}

#[test]
fn from_string() {
    let text = Text::raw(String::from("The first line\nThe second line").as_str());
    assert_eq!(
        text.lines,
        vec![Line::raw("The first line"), Line::raw("The second line")]
    );
}

#[test]
fn from_str() {
    let text = Text::raw("The first line\nThe second line");
    assert_eq!(
        text.lines,
        vec![Line::raw("The first line"), Line::raw("The second line")]
    );
}

#[test]
fn from_span() {
    let style = Style::new().yellow().italic();
    let text = Text::from_line(Line::from_span(Span::styled(
        "The first line\nThe second line",
        style,
    )));
    assert_eq!(
        text.lines,
        vec![Line::from_span(Span::styled(
            "The first line\nThe second line",
            style
        ))]
    );
}

#[test]
fn from_line() {
    let text = Text::from_line(Line::raw("The first line"));
    assert_eq!(text.lines, vec![Line::raw("The first line")]);
}

#[test]
fn from_vec_line() {
    let text = Text::from_lines(vec![
        Line::raw("The first line"),
        Line::raw("The second line"),
    ]);
    assert_eq!(
        text.lines,
        vec![Line::raw("The first line"), Line::raw("The second line")]
    );
}

#[test]
fn into_iter() {
    let text = Text::raw("The first line\nThe second line");
    let mut iter = text.lines.into_iter();
    assert_eq!(iter.next(), Some(Line::raw("The first line")));
    assert_eq!(iter.next(), Some(Line::raw("The second line")));
    assert_eq!(iter.next(), None);
}

#[test]
fn extend() {
    let mut text = Text::raw("The first line\nThe second line");
    text.extend(vec![
        Line::raw("The third line"),
        Line::raw("The fourth line"),
    ]);
    assert_eq!(
        text.lines,
        vec![
            Line::raw("The first line"),
            Line::raw("The second line"),
            Line::raw("The third line"),
            Line::raw("The fourth line"),
        ]
    );
}

#[test]
fn extend_from_iter() {
    let mut text = Text::raw("The first line\nThe second line");
    text.extend(vec![
        Line::raw("The third line"),
        Line::raw("The fourth line"),
    ]);
    assert_eq!(
        text.lines,
        vec![
            Line::raw("The first line"),
            Line::raw("The second line"),
            Line::raw("The third line"),
            Line::raw("The fourth line"),
        ]
    );
}

#[test]
fn extend_from_iter_str() {
    let mut text = Text::raw("The first line\nThe second line");
    text.extend_str(vec!["The third line", "The fourth line"]);
    assert_eq!(
        text.lines,
        vec![
            Line::raw("The first line"),
            Line::raw("The second line"),
            Line::raw("The third line"),
            Line::raw("The fourth line"),
        ]
    );
}

#[test]
fn display_raw_text() {
    let text = Text::raw("The first line\nThe second line");

    assert_eq!(text.to_string(), "The first line\nThe second line");
}

#[test]
fn display_styled_text() {
    let styled_text = Text::styled(
        "The first line\nThe second line",
        Style::new().yellow().italic(),
    );

    assert_eq!(styled_text.to_string(), "The first line\nThe second line");
}

#[test]
fn display_text_from_vec() {
    let text_from_vec = Text::from_lines(vec![
        Line::raw("The first line"),
        Line::raw("The second line"),
    ]);

    assert_eq!(text_from_vec.to_string(), "The first line\nThe second line");
}

#[test]
fn display_extended_text() {
    let mut text = Text::raw("The first line\nThe second line");

    assert_eq!(text.to_string(), "The first line\nThe second line");

    text.extend(vec![
        Line::raw("The third line"),
        Line::raw("The fourth line"),
    ]);

    assert_eq!(
        text.to_string(),
        "The first line\nThe second line\nThe third line\nThe fourth line"
    );
}

#[test]
fn text_stylize() {
    assert_eq!(Text::default().green().style, Style::from(Color::Green));
    assert_eq!(
        Text::default().on_green().style,
        Style::new().bg(Color::Green)
    );
    assert_eq!(Text::default().italic().style, Style::from(Modifier::italic()));
}

#[test]
fn render() {
    let text = Text::raw("foo");

    let area = Rect::new(0, 0, 5, 1);
    let mut buf = Buffer::empty(area);
    text.render(area, &mut buf);

    let expected_buf = Buffer::with_lines(vec![Line::raw("foo  ")]);

    assert_eq!(buf, expected_buf);
}

#[test]
fn render_right_aligned() {
    let text = Text::raw("foo").alignment(Alignment::Right);

    let area = Rect::new(0, 0, 5, 1);
    let mut buf = Buffer::empty(area);
    text.render(area, &mut buf);

    let expected_buf = Buffer::with_lines(vec![Line::raw("  foo")]);

    assert_eq!(buf, expected_buf);
}

#[test]
fn render_centered_odd() {
    let text = Text::raw("foo").alignment(Alignment::Center);

    let area = Rect::new(0, 0, 5, 1);
    let mut buf = Buffer::empty(area);
    text.render(area, &mut buf);

    let expected_buf = Buffer::with_lines(vec![Line::raw(" foo ")]);

    assert_eq!(buf, expected_buf);
}

#[test]
fn render_centered_even() {
    let text = Text::raw("foo").alignment(Alignment::Center);

    let area = Rect::new(0, 0, 6, 1);
    let mut buf = Buffer::empty(area);
    text.render(area, &mut buf);

    let expected_buf = Buffer::with_lines(vec![Line::raw(" foo  ")]);

    assert_eq!(buf, expected_buf);
}

#[test]
fn render_one_line_right() {
    let text = Text::from_lines(vec![
        Line::raw("foo"),
        Line::raw("bar").alignment(Alignment::Center),
    ])
    .alignment(Alignment::Right);

    let area = Rect::new(0, 0, 5, 2);
    let mut buf = Buffer::empty(area);
    text.render(area, &mut buf);

    let expected_buf = Buffer::with_lines(vec![Line::raw("  foo"), Line::raw(" bar ")]);

    assert_eq!(buf, expected_buf);
}

#[test]
fn render_only_styles_line_area() {
    let area = Rect::new(0, 0, 5, 1);
    let mut buf = Buffer::empty(area);
    Text::from_line(Line::styled("foo", Style::new().bg(Color::Blue))).render(area, &mut buf);

    let mut expected = Buffer::with_lines(vec![Line::raw("foo  ")]);
    expected.set_style(Rect::new(0, 0, 3, 1), Style::new().bg(Color::Blue));

    assert_eq!(buf, expected);
}

#[test]
fn render_truncates() {
    let mut buf = Buffer::empty(Rect::new(0, 0, 6, 1));
    Text::from_line(Line::styled("foobar", Style::new().bg(Color::Blue)))
        .render(Rect::new(0, 0, 3, 1), &mut buf);

    let mut expected = Buffer::with_lines(vec![Line::raw("foo   ")]);
    expected.set_style(Rect::new(0, 0, 3, 1), Style::new().bg(Color::Blue));

    assert_eq!(buf, expected);
}
