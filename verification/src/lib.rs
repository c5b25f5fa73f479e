//! A terminal-rendering core: a constraint-based layout solver, a styled
//! cell-grid buffer with a minimal-update diff engine, and the widget
//! primitives built on top of them.
#![allow(unused_imports)]

pub mod block;
pub mod buffer;
pub mod canvas;
pub mod cell;
pub mod chart;
pub mod constraint;
pub mod decimal;
pub mod diff;
pub mod margin;
pub mod offset;
pub mod position;
pub mod rect;
pub mod screen;
pub mod size;
pub mod solver;
pub mod style;
pub mod symbols;
pub mod table;
pub mod text;
pub mod width;

pub use block::{Block, Borders};
pub use buffer::Buffer;
pub use canvas::{BrailleGrid, CharGrid, Grid, HalfBlockGrid, Layer};
pub use cell::Cell;
pub use chart::{ChartLayout, GraphType, LegendPosition};
pub use constraint::{Axis, Constraint, Flex};
pub use diff::{diff, PatchEntry};
pub use margin::Margin;
pub use offset::Offset;
pub use position::Position;
pub use rect::{Columns, Rect, Rows};
pub use screen::Screen;
pub use size::Size;
pub use solver::{solve, Layout};
pub use style::{Color, Modifier, Style};
pub use symbols::Marker;
pub use table::{HighlightSpacing, Row, SegmentSize, Table, TableState};
pub use text::{Alignment, Line, Span, Text};
