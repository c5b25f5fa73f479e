//! The chart-side value types whose logic is plain geometry: the graph
//! kind and the placement of a chart legend.
use vstd::prelude::*;
use vstd::string::StrSliceExecFns;
use vstd::string::StringExecFns;

use crate::rect::Rect;

verus! {

/// Which style of graphing a dataset uses.
#[derive(Debug, Default, Clone, Copy, PartialEq, Eq, Hash, Structural)]
pub enum GraphType {
    /// Draw each point on its own. The default.
    #[default]
    Scatter,
    /// Draw a line from each point to the next.
    Line,
}

impl GraphType {
    /// The name of the variant.
    pub fn to_string(&self) -> (r: String)
        ensures
            *self is Scatter ==> r@ == "Scatter"@,
            *self is Line ==> r@ == "Line"@,
    {
        match self {
            GraphType::Scatter => "Scatter".to_owned(),
            GraphType::Line => "Line".to_owned(),
        }
    }
}

/// Whether two runs of characters are the same.
fn same_chars(a: &str, b: &str) -> (r: bool)
    ensures
        r == (a@ == b@),
{
    let n = a.unicode_len();
    if n != b.unicode_len() {
        return false;
    }
    let mut i: usize = 0;
    while i < n
        invariant
            a@.len() == n,
            b@.len() == n,
            i <= n,
            forall|j: int| 0 <= j < i ==> a@[j] == b@[j],
        decreases n - i,
    {
        if a.get_char(i) != b.get_char(i) {
            return false;
        }
        i = i + 1;
    }
    proof {
        assert(a@ =~= b@);
    }
    true
}

impl core::str::FromStr for GraphType {
    type Err = ();

    /// The variant with the given name, or an error for any other
    /// string.
    fn from_str(s: &str) -> (r: Result<GraphType, ()>) {
        if same_chars(s, "Scatter") {
            Ok(GraphType::Scatter)
        } else if same_chars(s, "Line") {
            Ok(GraphType::Line)
        } else {
            Err(())
        }
    }
}

/// Where the parts of a chart land inside its area: axis lines, label
/// rows and columns, titles and the graph itself. Elements the area
/// cannot host are `None` and simply not drawn.
#[derive(Debug, Default, Clone, Copy, PartialEq, Eq, Hash)]
pub struct ChartLayout {
    /// Where the x-axis title starts, if it fits.
    pub title_x: Option<(u16, u16)>,
    /// Where the y-axis title starts, if it fits.
    pub title_y: Option<(u16, u16)>,
    /// The row of the x-axis labels, if any fit.
    pub label_x: Option<u16>,
    /// The column where the y-axis labels start, if any fit.
    pub label_y: Option<u16>,
    /// The row of the horizontal axis line, if it fits.
    pub axis_x: Option<u16>,
    /// The column of the vertical axis line, if it fits.
    pub axis_y: Option<u16>,
    /// The plotting region.
    pub graph_area: Rect,
}

/// The largest value of a sequence of widths, zero when it is empty.
pub open spec fn spec_max_width(s: Seq<u16>) -> int
    decreases s.len(),
{
    if s.len() == 0 {
        0
    } else {
        let rest = spec_max_width(s.drop_last());
        if s.last() > rest {
            s.last() as int
        } else {
            rest
        }
    }
}

/// The columns reserved left of the y axis: the widest y label, or
/// what the first x label needs on that side by its alignment —
/// capped at a third of the area's width.
pub open spec fn spec_label_space(
    y_label_widths: Seq<u16>,
    first_x_label_width: Option<u16>,
    x_labels_alignment: crate::text::Alignment,
    has_y_axis: bool,
    area_width: int,
) -> int {
    let m0 = spec_max_width(y_label_widths);
    let m1 = match first_x_label_width {
        Some(fw) => {
            let adj = match x_labels_alignment {
                crate::text::Alignment::Left => if has_y_axis && fw >= 1 {
                    fw - 1
                } else if has_y_axis {
                    0int
                } else {
                    fw as int
                },
                crate::text::Alignment::Center => fw as int / 2,
                crate::text::Alignment::Right => 0int,
            };
            if adj > m0 {
                adj
            } else {
                m0
            }
        },
        None => m0,
    };
    if m1 <= area_width / 3 {
        m1
    } else {
        area_width / 3
    }
}

/// Compute [`spec_label_space`]: how many columns the labels left of
/// the y axis take.
pub fn max_width_of_labels_left_of_y_axis(
    y_label_widths: &Vec<u16>,
    first_x_label_width: Option<u16>,
    x_labels_alignment: crate::text::Alignment,
    has_y_axis: bool,
    area_width: u16,
) -> (r: u16)
    ensures
        r as int == spec_label_space(
            y_label_widths@,
            first_x_label_width,
            x_labels_alignment,
            has_y_axis,
            area_width as int,
        ),
{
    let mut max_width: u16 = 0;
    let mut i: usize = 0;
    proof {
        assert(y_label_widths@.take(0) =~= Seq::<u16>::empty());
    }
    while i < y_label_widths.len()
        invariant
            i <= y_label_widths@.len(),
            max_width as int == spec_max_width(y_label_widths@.take(i as int)),
        decreases y_label_widths@.len() - i,
    {
        proof {
            assert(y_label_widths@.take(i as int + 1).drop_last() =~= y_label_widths@.take(
                i as int,
            ));
            assert(y_label_widths@.take(i as int + 1).last() == y_label_widths@[i as int]);
        }
        if y_label_widths[i] > max_width {
            max_width = y_label_widths[i];
        }
        i = i + 1;
    }
    proof {
        assert(y_label_widths@.take(y_label_widths@.len() as int) =~= y_label_widths@);
    }
    let max_width: u16 = match first_x_label_width {
        Some(fw) => {
            let adj: u16 = match x_labels_alignment {
                crate::text::Alignment::Left => {
                    // the last character of the label sits under the y
                    // axis when there is one, not left of it
                    if has_y_axis && fw >= 1 {
                        fw - 1
                    } else if has_y_axis {
                        0
                    } else {
                        fw
                    }
                },
                crate::text::Alignment::Center => fw / 2,
                crate::text::Alignment::Right => 0,
            };
            if adj > max_width {
                adj
            } else {
                max_width
            }
        },
        None => max_width,
    };
    // the labels left of the y axis take at most a third of the width
    if max_width <= area_width / 3 {
        max_width
    } else {
        area_width / 3
    }
}

/// Where the parts of a chart land: the bottom rows go to the x labels
/// and the x axis, the left columns to the y labels and the y axis,
/// and the rest is the graph; titles are placed only while they fit.
pub open spec fn spec_chart_layout(
    area: Rect,
    has_x_labels: bool,
    has_y_labels: bool,
    label_space: int,
    x_title_width: Option<u16>,
    y_title_width: Option<u16>,
) -> ChartLayout {
    if area.height == 0 || area.width == 0 {
        ChartLayout {
            title_x: None,
            title_y: None,
            label_x: None,
            label_y: None,
            axis_x: None,
            axis_y: None,
            graph_area: Rect { x: 0, y: 0, width: 0, height: 0 },
        }
    } else {
        let x0 = area.x as int;
        let y0 = area.y + area.height - 1;
        let label_x = if has_x_labels && y0 > area.y {
            Some(y0 as u16)
        } else {
            None
        };
        let y1 = if has_x_labels && y0 > area.y {
            y0 - 1
        } else {
            y0
        };
        let label_y = if has_y_labels {
            Some(x0 as u16)
        } else {
            None
        };
        let x1 = x0 + label_space;
        let axis_x = if has_x_labels && y1 > area.y {
            Some(y1 as u16)
        } else {
            None
        };
        let y2 = if has_x_labels && y1 > area.y {
            y1 - 1
        } else {
            y1
        };
        let axis_y = if has_y_labels && x1 + 1 < area.x + area.width {
            Some(x1 as u16)
        } else {
            None
        };
        let x2 = if has_y_labels && x1 + 1 < area.x + area.width {
            x1 + 1
        } else {
            x1
        };
        let graph_area = if x2 < area.x + area.width && y2 > 1 {
            Rect {
                x: x2 as u16,
                y: area.y,
                width: (area.x + area.width - x2) as u16,
                height: (y2 - area.y + 1) as u16,
            }
        } else {
            Rect { x: 0, y: 0, width: 0, height: 0 }
        };
        let title_x = match x_title_width {
            Some(w) => if w < graph_area.width && graph_area.height > 2 {
                Some(((x2 + graph_area.width - w) as u16, y2 as u16))
            } else {
                None
            },
            None => None,
        };
        let title_y = match y_title_width {
            Some(w) => if w + 1 < graph_area.width && graph_area.height > 2 {
                Some((x2 as u16, area.y))
            } else {
                None
            },
            None => None,
        };
        ChartLayout { title_x, title_y, label_x, label_y, axis_x, axis_y, graph_area }
    }
}

/// Compute [`spec_chart_layout`]. Elements the area cannot host come
/// back `None`, so a chart in a tight corner degrades row by row
/// rather than failing.
pub fn chart_layout(
    area: Rect,
    has_x_labels: bool,
    has_y_labels: bool,
    label_space: u16,
    x_title_width: Option<u16>,
    y_title_width: Option<u16>,
) -> (r: ChartLayout)
    requires
        area.x + area.width <= 0xFFFF,
        area.y + area.height <= 0xFFFF,
        label_space <= area.width,
    ensures
        r == spec_chart_layout(
            area,
            has_x_labels,
            has_y_labels,
            label_space as int,
            x_title_width,
            y_title_width,
        ),
{
    if area.height == 0 || area.width == 0 {
        return ChartLayout {
            title_x: None,
            title_y: None,
            label_x: None,
            label_y: None,
            axis_x: None,
            axis_y: None,
            graph_area: Rect { x: 0, y: 0, width: 0, height: 0 },
        };
    }
    let mut x: u16 = area.x;
    let mut y: u16 = area.y + area.height - 1;
    let mut label_x: Option<u16> = None;
    if has_x_labels && y > area.y {
        label_x = Some(y);
        y = y - 1;
    }
    let label_y: Option<u16> = if has_y_labels {
        Some(x)
    } else {
        None
    };
    x = x + label_space;
    let mut axis_x: Option<u16> = None;
    if has_x_labels && y > area.y {
        axis_x = Some(y);
        y = y - 1;
    }
    let mut axis_y: Option<u16> = None;
    if has_y_labels && (x as u32) + 1 < area.x as u32 + area.width as u32 {
        axis_y = Some(x);
        x = x + 1;
    }
    let graph_area: Rect = if x < area.x + area.width && y > 1 {
        Rect { x, y: area.y, width: area.x + area.width - x, height: y - area.y + 1 }
    } else {
        Rect { x: 0, y: 0, width: 0, height: 0 }
    };
    let title_x: Option<(u16, u16)> = match x_title_width {
        Some(w) => {
            if w < graph_area.width && graph_area.height > 2 {
                Some((x + graph_area.width - w, y))
            } else {
                None
            }
        },
        None => None,
    };
    let title_y: Option<(u16, u16)> = match y_title_width {
        Some(w) => {
            if w < 0xFFFF && w + 1 < graph_area.width && graph_area.height > 2 {
                Some((x, area.y))
            } else {
                None
            }
        },
        None => None,
    };
    ChartLayout { title_x, title_y, label_x, label_y, axis_x, axis_y, graph_area }
}

/// The row strip an x-axis label is written into, and how the label
/// sits in it: the first label leans into the reserved columns left of
/// the graph, middle labels center between their ticks with one column
/// of breathing room, and the last label ends flush with the graph's
/// right edge.
pub open spec fn spec_x_label_area(
    chart_area: Rect,
    graph_area: Rect,
    y: u16,
    k: int,
    n: int,
    label_width: int,
    labels_alignment: crate::text::Alignment,
) -> (Rect, crate::text::Alignment) {
    let wbt = graph_area.width as int / n;
    if k == 0 {
        let bounds = match labels_alignment {
            crate::text::Alignment::Left => (chart_area.x as int, graph_area.x as int),
            crate::text::Alignment::Center => (
                chart_area.x as int,
                graph_area.x + (if wbt <= label_width {
                    wbt
                } else {
                    label_width
                }),
            ),
            crate::text::Alignment::Right => (
                if graph_area.x >= 1 {
                    graph_area.x - 1
                } else {
                    0int
                },
                graph_area.x + wbt,
            ),
        };
        let flipped = match labels_alignment {
            crate::text::Alignment::Left => crate::text::Alignment::Right,
            crate::text::Alignment::Center => crate::text::Alignment::Center,
            crate::text::Alignment::Right => crate::text::Alignment::Left,
        };
        (
            Rect { x: bounds.0 as u16, y, width: (bounds.1 - bounds.0) as u16, height: 1 },
            flipped,
        )
    } else if k < n - 1 {
        let x = graph_area.x + k * wbt + 1;
        let xc = if x <= 0xFFFF {
            x
        } else {
            0xFFFF
        };
        (
            Rect {
                x: xc as u16,
                y,
                width: (if wbt >= 1 {
                    wbt - 1
                } else {
                    0int
                }) as u16,
                height: 1,
            },
            crate::text::Alignment::Center,
        )
    } else {
        let x = graph_area.x + graph_area.width - wbt;
        (
            Rect { x: x as u16, y, width: wbt as u16, height: 1 },
            crate::text::Alignment::Right,
        )
    }
}

/// Compute [`spec_x_label_area`]: where the `k`-th of `n` x-axis
/// labels goes.
pub fn x_label_area(
    chart_area: Rect,
    graph_area: Rect,
    y: u16,
    k: u16,
    n: u16,
    label_width: u16,
    labels_alignment: crate::text::Alignment,
) -> (r: (Rect, crate::text::Alignment))
    requires
        n >= 2,
        k < n,
        chart_area.x <= graph_area.x,
        graph_area.x + graph_area.width <= 0xFFFF,
    ensures
        r == spec_x_label_area(
            chart_area,
            graph_area,
            y,
            k as int,
            n as int,
            label_width as int,
            labels_alignment,
        ),
{
    let wbt: u16 = graph_area.width / n;
    if k == 0 {
        let (min_x, max_x): (u16, u16) = match labels_alignment {
            crate::text::Alignment::Left => (chart_area.x, graph_area.x),
            crate::text::Alignment::Center => (
                chart_area.x,
                graph_area.x + if wbt <= label_width {
                    wbt
                } else {
                    label_width
                },
            ),
            crate::text::Alignment::Right => (
                if graph_area.x >= 1 {
                    graph_area.x - 1
                } else {
                    0
                },
                graph_area.x + wbt,
            ),
        };
        let flipped = match labels_alignment {
            crate::text::Alignment::Left => crate::text::Alignment::Right,
            crate::text::Alignment::Center => crate::text::Alignment::Center,
            crate::text::Alignment::Right => crate::text::Alignment::Left,
        };
        (Rect { x: min_x, y, width: max_x - min_x, height: 1 }, flipped)
    } else if k < n - 1 {
        proof {
            assert(k * wbt <= n * wbt) by (nonlinear_arith)
                requires
                    k <= n && wbt >= 0,
            ;
            assert(n * wbt <= graph_area.width) by (nonlinear_arith)
                requires
                    wbt == graph_area.width as int / (n as int) && n >= 1 && graph_area.width >= 0,
            ;
        }
        let x: u32 = graph_area.x as u32 + (k as u32) * (wbt as u32) + 1;
        let xc: u16 = if x <= 0xFFFF {
            x as u16
        } else {
            0xFFFF
        };
        let w: u16 = if wbt >= 1 {
            wbt - 1
        } else {
            0
        };
        (Rect { x: xc, y, width: w, height: 1 }, crate::text::Alignment::Center)
    } else {
        (
            Rect { x: graph_area.x + graph_area.width - wbt, y, width: wbt, height: 1 },
            crate::text::Alignment::Right,
        )
    }
}

/// Where the legend of a chart sits inside the chart's area.
#[derive(Debug, Default, Clone, Copy, PartialEq, Eq, Hash, Structural)]
pub enum LegendPosition {
    /// Centered on top.
    Top,
    /// The top-right corner. The default.
    #[default]
    TopRight,
    /// The top-left corner.
    TopLeft,
    /// Centered on the left.
    Left,
    /// Centered on the right.
    Right,
    /// Centered on the bottom.
    Bottom,
    /// The bottom-right corner.
    BottomRight,
    /// The bottom-left corner.
    BottomLeft,
}

/// The corner the legend takes for a given position, axis-title widths
/// taken into account; `None` when the legend cannot fit above or below
/// the titles.
pub open spec fn spec_legend_layout(
    pos: LegendPosition,
    area: Rect,
    legend_width: int,
    legend_height: int,
    x_title_width: int,
    y_title_width: int,
) -> Option<Rect> {
    let height_margin = area.height - legend_height - (if x_title_width != 0 {
        1int
    } else {
        0int
    }) - (if y_title_width != 0 {
        1int
    } else {
        0int
    });
    if height_margin < 0 {
        None
    } else {
        let xy = match pos {
            LegendPosition::TopRight => if legend_width + y_title_width > area.width {
                (area.x + area.width - legend_width, area.y + 1)
            } else {
                (area.x + area.width - legend_width, area.y as int)
            },
            LegendPosition::TopLeft => if y_title_width != 0 {
                (area.x as int, area.y + 1)
            } else {
                (area.x as int, area.y as int)
            },
            LegendPosition::Top => {
                let x = (area.width - legend_width) / 2;
                if area.x + y_title_width > area.x + x {
                    (area.x + x, area.y + 1)
                } else {
                    (area.x + x, area.y as int)
                }
            },
            LegendPosition::Left => {
                let y0 = (area.height - legend_height) / 2;
                let y1 = if y_title_width != 0 {
                    y0 + 1
                } else {
                    y0
                };
                let y2 = if x_title_width != 0 && y1 >= 1 {
                    y1 - 1
                } else if x_title_width != 0 {
                    0int
                } else {
                    y1
                };
                (area.x as int, area.y + y2)
            },
            LegendPosition::Right => {
                let y0 = (area.height - legend_height) / 2;
                let y1 = if y_title_width != 0 {
                    y0 + 1
                } else {
                    y0
                };
                let y2 = if x_title_width != 0 && y1 >= 1 {
                    y1 - 1
                } else if x_title_width != 0 {
                    0int
                } else {
                    y1
                };
                (area.x + area.width - legend_width, area.y + y2)
            },
            LegendPosition::BottomLeft => if x_title_width + legend_width > area.width {
                (area.x as int, area.y + area.height - legend_height - 1)
            } else {
                (area.x as int, area.y + area.height - legend_height)
            },
            LegendPosition::BottomRight => if x_title_width != 0 {
                (area.x + area.width - legend_width, area.y + area.height - legend_height - 1)
            } else {
                (area.x + area.width - legend_width, area.y + area.height - legend_height)
            },
            LegendPosition::Bottom => {
                let x = area.x + (area.width - legend_width) / 2;
                if x + legend_width + x_title_width > area.x + area.width {
                    (x, area.y + area.height - legend_height - 1)
                } else {
                    (x, area.y + area.height - legend_height)
                }
            },
        };
        Some(
            Rect {
                x: xy.0 as u16,
                y: xy.1 as u16,
                width: legend_width as u16,
                height: legend_height as u16,
            },
        )
    }
}

impl LegendPosition {
    /// The rectangle the legend takes inside `area`, or `None` when the
    /// area cannot host it beside the axis titles.
    ///
    /// The legend must fit the area, and the area must lie on the grid;
    /// sizing the legend against the area is the chart's own
    /// responsibility.
    pub fn layout(
        &self,
        area: Rect,
        legend_width: u16,
        legend_height: u16,
        x_title_width: u16,
        y_title_width: u16,
    ) -> (r: Option<Rect>)
        requires
            legend_width <= area.width,
            legend_height <= area.height,
            legend_width >= 1,
            legend_height >= 1,
            area.x + area.width <= 0xFFFF,
            area.y + area.height <= 0xFFFF,
            y_title_width <= 0xFFFE,
        ensures
            r == spec_legend_layout(
                *self,
                area,
                legend_width as int,
                legend_height as int,
                x_title_width as int,
                y_title_width as int,
            ),
    {
        let mut height_margin: i64 = area.height as i64 - legend_height as i64;
        if x_title_width != 0 {
            height_margin = height_margin - 1;
        }
        if y_title_width != 0 {
            height_margin = height_margin - 1;
        }
        if height_margin < 0 {
            return None;
        }
        let (x, y): (u16, u16) = match self {
            LegendPosition::TopRight => {
                if legend_width as u32 + y_title_width as u32 > area.width as u32 {
                    (area.x + area.width - legend_width, area.y + 1)
                } else {
                    (area.x + area.width - legend_width, area.y)
                }
            },
            LegendPosition::TopLeft => {
                if y_title_width != 0 {
                    (area.x, area.y + 1)
                } else {
                    (area.x, area.y)
                }
            },
            LegendPosition::Top => {
                let x = (area.width - legend_width) / 2;
                if area.x as u32 + y_title_width as u32 > area.x as u32 + x as u32 {
                    (area.x + x, area.y + 1)
                } else {
                    (area.x + x, area.y)
                }
            },
            LegendPosition::Left => {
                let mut y = (area.height - legend_height) / 2;
                if y_title_width != 0 {
                    y = y + 1;
                }
                if x_title_width != 0 {
                    y = if y >= 1 {
                        y - 1
                    } else {
                        0
                    };
                }
                (area.x, area.y + y)
            },
            LegendPosition::Right => {
                let mut y = (area.height - legend_height) / 2;
                if y_title_width != 0 {
                    y = y + 1;
                }
                if x_title_width != 0 {
                    y = if y >= 1 {
                        y - 1
                    } else {
                        0
                    };
                }
                (area.x + area.width - legend_width, area.y + y)
            },
            LegendPosition::BottomLeft => {
                if x_title_width as u32 + legend_width as u32 > area.width as u32 {
                    (area.x, area.y + area.height - legend_height - 1)
                } else {
                    (area.x, area.y + area.height - legend_height)
                }
            },
            LegendPosition::BottomRight => {
                if x_title_width != 0 {
                    (area.x + area.width - legend_width, area.y + area.height - legend_height - 1)
                } else {
                    (area.x + area.width - legend_width, area.y + area.height - legend_height)
                }
            },
            LegendPosition::Bottom => {
                let x = area.x + (area.width - legend_width) / 2;
                if x as u32 + legend_width as u32 + x_title_width as u32 > area.x as u32
                    + area.width as u32 {
                    (x, area.y + area.height - legend_height - 1)
                } else {
                    (x, area.y + area.height - legend_height)
                }
            },
        };
        Some(Rect { x, y, width: legend_width, height: legend_height })
    }
}

} // verus!
