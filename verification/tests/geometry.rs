//! The geometry value types: positions, sizes and rectangles.
use tui_core::constraint::Constraint;
use tui_core::margin::Margin;
use tui_core::offset::Offset;
use tui_core::position::Position;
use tui_core::rect::Rect;
use tui_core::size::Size;
use tui_core::solver::Layout;

#[test]
fn position_new() {
    let position = Position::new(1, 2);
    assert_eq!(position.x, 1);
    assert_eq!(position.y, 2);
}

#[test]
fn position_from_tuple() {
    let position = Position::from((1, 2));
    assert_eq!(position.x, 1);
    assert_eq!(position.y, 2);
}

#[test]
fn into_tuple() {
    let position = Position::new(1, 2);
    let (x, y) = position.into();
    assert_eq!(x, 1);
    assert_eq!(y, 2);
}

#[test]
fn position_from_rect() {
    let rect = Rect::new(1, 2, 3, 4);
    let position = Position::from(rect);
    assert_eq!(position.x, 1);
    assert_eq!(position.y, 2);
}

#[test]
fn to_string() {
    assert_eq!(Rect::new(1, 2, 3, 4).to_string(), "3x4+1+2");
}

#[test]
fn rect_new() {
    assert_eq!(
        Rect::new(1, 2, 3, 4),
        Rect {
            x: 1,
            y: 2,
            width: 3,
            height: 4
        }
    );
}

#[test]
fn area() {
    assert_eq!(Rect::new(1, 2, 3, 4).area(), 12);
}

#[test]
fn is_empty() {
    assert!(!Rect::new(1, 2, 3, 4).is_empty());
    assert!(Rect::new(1, 2, 0, 4).is_empty());
    assert!(Rect::new(1, 2, 3, 0).is_empty());
}

#[test]
fn left() {
    assert_eq!(Rect::new(1, 2, 3, 4).left(), 1);
}

#[test]
fn right() {
    assert_eq!(Rect::new(1, 2, 3, 4).right(), 4);
}

#[test]
fn top() {
    assert_eq!(Rect::new(1, 2, 3, 4).top(), 2);
}

#[test]
fn bottom() {
    assert_eq!(Rect::new(1, 2, 3, 4).bottom(), 6);
}

#[test]
fn inner() {
    assert_eq!(
        Rect::new(1, 2, 3, 4).inner(&Margin::new(1, 2)),
        Rect::new(2, 4, 1, 0)
    );
}

#[test]
fn offset() {
    assert_eq!(
        Rect::new(1, 2, 3, 4).offset(Offset { x: 5, y: 6 }),
        Rect::new(6, 8, 3, 4),
    );
}

#[test]
fn negative_offset() {
    assert_eq!(
        Rect::new(4, 3, 3, 4).offset(Offset { x: -2, y: -1 }),
        Rect::new(2, 2, 3, 4),
    );
}

#[test]
fn negative_offset_saturate() {
    assert_eq!(
        Rect::new(1, 2, 3, 4).offset(Offset { x: -5, y: -6 }),
        Rect::new(0, 0, 3, 4),
    );
}

#[test]
fn offset_saturate_max() {
    assert_eq!(
        Rect::new(u16::MAX - 500, u16::MAX - 500, 100, 100).offset(Offset { x: 1000, y: 1000 }),
        Rect::new(u16::MAX - 100, u16::MAX - 100, 100, 100),
    );
}

#[test]
fn union() {
    assert_eq!(
        Rect::new(1, 2, 3, 4).union(Rect::new(2, 3, 4, 5)),
        Rect::new(1, 2, 5, 6)
    );
}

#[test]
fn intersection() {
    assert_eq!(
        Rect::new(1, 2, 3, 4).intersection(Rect::new(2, 3, 4, 5)),
        Rect::new(2, 3, 2, 3)
    );
}

#[test]
fn intersection_underflow() {
    assert_eq!(
        Rect::new(1, 1, 2, 2).intersection(Rect::new(4, 4, 2, 2)),
        Rect::new(4, 4, 0, 0)
    );
}

#[test]
fn intersects() {
    assert!(Rect::new(1, 2, 3, 4).intersects(Rect::new(2, 3, 4, 5)));
    assert!(!Rect::new(1, 2, 3, 4).intersects(Rect::new(5, 6, 7, 8)));
}

#[test]
fn size_truncation() {
    for width in 256u16..300u16 {
        for height in 256u16..300u16 {
            let rect = Rect::new(0, 0, width, height);
            rect.area(); // never exceeds the cell-count range
            assert!(rect.width < width || rect.height < height);
            // the clipped extents are rounded down, so the ratios may
            // differ a little, but never diverge wildly
            assert!(
                (f64::from(rect.width) / f64::from(rect.height)
                    - f64::from(width) / f64::from(height))
                .abs()
                    < 1.0
            );
        }
    }

    // One dimension below 255, one above. Area above max u16.
    let width = 900;
    let height = 100;
    let rect = Rect::new(0, 0, width, height);
    assert_ne!(rect.width, 900);
    assert_ne!(rect.height, 100);
    assert!(rect.width < width || rect.height < height);
}

#[test]
fn size_preservation() {
    for width in 0..256u16 {
        for height in 0..256u16 {
            let rect = Rect::new(0, 0, width, height);
            rect.area(); // never exceeds the cell-count range
            assert_eq!(rect.width, width);
            assert_eq!(rect.height, height);
        }
    }

    // One dimension below 255, one above. Area below max u16.
    let rect = Rect::new(0, 0, 300, 100);
    assert_eq!(rect.width, 300);
    assert_eq!(rect.height, 100);
}

#[test]
fn can_be_const() {
    let rect = Rect {
        x: 0,
        y: 0,
        width: 10,
        height: 10,
    };
    let _area = rect.area();
    let _left = rect.left();
    let _right = rect.right();
    let _top = rect.top();
    let _bottom = rect.bottom();
    assert!(rect.intersects(rect));
}

#[test]
fn split() {
    let layout = Layout::horizontal(vec![Constraint::Percentage(50), Constraint::Percentage(50)]);
    let rects = Rect::new(0, 0, 2, 1).split(&layout);
    assert_eq!(rects[0], Rect::new(0, 0, 1, 1));
    assert_eq!(rects[1], Rect::new(1, 0, 1, 1));
}

#[test]
fn rect_rows() {
    let area = Rect::new(0, 0, 3, 2);
    let mut rows = Vec::new();
    let mut cursor = area.rows();
    while let Some(row) = cursor.next() {
        rows.push(row);
    }

    let expected_rows: Vec<Rect> = vec![Rect::new(0, 0, 3, 1), Rect::new(0, 1, 3, 1)];

    assert_eq!(rows, expected_rows);
}

#[test]
fn columns() {
    let area = Rect::new(0, 0, 3, 2);
    let mut columns = Vec::new();
    let mut cursor = area.columns();
    while let Some(column) = cursor.next() {
        columns.push(column);
    }

    let expected_columns: Vec<Rect> = vec![
        Rect::new(0, 0, 1, 2),
        Rect::new(1, 0, 1, 2),
        Rect::new(2, 0, 1, 2),
    ];

    assert_eq!(columns, expected_columns);
}

#[test]
fn as_position() {
    let rect = Rect::new(1, 2, 3, 4);
    let position = rect.as_position();
    assert_eq!(position.x, 1);
    assert_eq!(position.y, 2);
}

#[test]
fn as_size() {
    assert_eq!(
        Rect::new(1, 2, 3, 4).as_size(),
        Size {
            width: 3,
            height: 4
        }
    );
}

#[test]
fn from_position_and_size() {
    let position = Position { x: 1, y: 2 };
    let size = Size {
        width: 3,
        height: 4,
    };
    assert_eq!(
        Rect::from((position, size)),
        Rect {
            x: 1,
            y: 2,
            width: 3,
            height: 4
        }
    );
}

#[test]
fn size_new() {
    let size = Size::new(10, 20);
    assert_eq!(size.width, 10);
    assert_eq!(size.height, 20);
}

#[test]
fn size_from_tuple() {
    let size = Size::from((10, 20));
    assert_eq!(size.width, 10);
    assert_eq!(size.height, 20);
}

#[test]
fn size_from_rect() {
    let size = Size::from(Rect::new(0, 0, 10, 20));
    assert_eq!(size.width, 10);
    assert_eq!(size.height, 20);
}
