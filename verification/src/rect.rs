//! The rectangle that layout computes and widgets render into.
use vstd::prelude::*;

use crate::decimal;
use crate::margin::Margin;
use crate::offset::Offset;
use crate::position::Position;
use crate::size::Size;

verus! {

/// The largest cell count a rectangle may cover, and also the largest
/// value of a single coordinate.
pub const MAX_AREA: u16 = 65535;

/// An axis-aligned rectangle on the character grid, given by its top-left
/// corner and its extent.
///
/// Construction through [`Rect::new`] keeps the invariant that
/// `width * height` never exceeds [`MAX_AREA`], clamping oversized
/// requests while preserving their aspect ratio.
#[derive(Debug, Default, Clone, Copy, PartialEq, Eq, Hash, Structural)]
pub struct Rect {
    /// The column of the top-left corner.
    pub x: u16,
    /// The row of the top-left corner.
    pub y: u16,
    /// The width in columns.
    pub width: u16,
    /// The height in rows.
    pub height: u16,
}

/// Integer square root: the largest `r` with `r * r <= n`.
fn isqrt(n: u64) -> (r: u64)
    requires
        n < 0xFFFF_FFFF_FFFF_FFFF,
    ensures
        r * r <= n,
        n < (r + 1) * (r + 1),
{
    let mut lo: u64 = 0;
    let mut hi: u64 = 0x1_0000_0000;
    proof {
        assert(hi * hi > n) by (nonlinear_arith)
            requires
                hi == 0x1_0000_0000,
                n < 0xFFFF_FFFF_FFFF_FFFF,
        ;
    }
    while lo + 1 < hi
        invariant
            lo < hi,
            hi <= 0x1_0000_0000,
            lo * lo <= n,
            hi * hi > n,
        decreases hi - lo,
    {
        let mid = lo + (hi - lo) / 2;
        proof {
            assert(mid * mid < 0xFFFF_FFFF_FFFF_FFFF) by (nonlinear_arith)
                requires
                    mid < 0x1_0000_0000,
            ;
        }
        if mid * mid <= n {
            lo = mid;
        } else {
            hi = mid;
        }
    }
    lo
}

impl Rect {
    /// Create a new rectangle.
    ///
    /// If `width * height` would exceed [`MAX_AREA`], both extents are
    /// scaled down, preserving the aspect ratio: the clipped height is the
    /// integer square root of `MAX_AREA * height / width` and the clipped
    /// width scales it back by `width / height`.
    pub fn new(x: u16, y: u16, width: u16, height: u16) -> (r: Rect)
        ensures
            r.x == x,
            r.y == y,
            r.width * r.height <= MAX_AREA,
            width * height <= MAX_AREA ==> r.width == width && r.height == height,
            width * height > MAX_AREA ==> {
                &&& r.height * r.height * width <= MAX_AREA * height
                &&& (r.height + 1) * (r.height + 1) * width > MAX_AREA * height
                &&& r.width == (r.height * width) as int / height as int
            },
    {
        proof {
            assert(width * height <= 0xFFFE0001) by (nonlinear_arith)
                requires
                    width <= 0xFFFF && height <= 0xFFFF,
            ;
        }
        if (width as u64) * (height as u64) <= MAX_AREA as u64 {
            Rect { x, y, width, height }
        } else {
            let num: u64 = (MAX_AREA as u64) * (height as u64) / (width as u64);
            let hh: u64 = isqrt(num);
            proof {
                let w = width as int;
                let h = height as int;
                let m = MAX_AREA as int;
                let nu = num as int;
                let hhi = hh as int;
                assert(w >= 1 && h >= 1) by (nonlinear_arith)
                    requires
                        w * h > m,
                        m > 0,
                        w >= 0,
                        h >= 0,
                ;
                assert(nu <= m * h) by (nonlinear_arith)
                    requires
                        nu == (m * h) / w,
                        w >= 1,
                        m >= 0,
                        h >= 0,
                ;
                assert(hhi <= 0xFFFF) by (nonlinear_arith)
                    requires
                        hhi * hhi <= nu,
                        nu <= 0xFFFF * 0xFFFF,
                        hhi >= 0,
                ;
                assert(hhi * width <= 0xFFFF * 0xFFFF) by (nonlinear_arith)
                    requires
                        hhi <= 0xFFFF,
                        width <= 0xFFFF,
                        hhi >= 0,
                ;
            }
            let ww: u64 = hh * (width as u64) / (height as u64);
            proof {
                let w = width as int;
                let h = height as int;
                let m = MAX_AREA as int;
                let nu = num as int;
                let hhi = hh as int;
                let wwi = ww as int;
                assert(w >= 1 && h >= 1) by (nonlinear_arith)
                    requires
                        w * h > m,
                        m > 0,
                        w >= 0,
                        h >= 0,
                ;
                // floor-division bounds for num and ww
                assert(nu == (m * h) / w && nu * w <= m * h && m * h < (nu + 1) * w) by (nonlinear_arith)
                    requires
                        nu == (m * h) / w,
                        w >= 1,
                        m >= 0,
                        h >= 0,
                ;
                assert(wwi == (hhi * w) / h && wwi * h <= hhi * w && hhi * w < (wwi + 1) * h) by (nonlinear_arith)
                    requires
                        wwi == (hhi * w) / h,
                        h >= 1,
                        hhi >= 0,
                        w >= 0,
                ;
                // hh * hh <= num, so hh * hh * w <= m * h
                assert(hhi * hhi * w <= m * h) by (nonlinear_arith)
                    requires
                        hhi * hhi <= nu,
                        nu * w <= m * h,
                        w >= 1,
                ;
                // and the next height would overshoot
                assert((hhi + 1) * (hhi + 1) * w > m * h) by (nonlinear_arith)
                    requires
                        nu < (hhi + 1) * (hhi + 1),
                        m * h < (nu + 1) * w,
                        w >= 1,
                ;
                // the clipped extents are small enough for u16
                assert(hhi <= m) by (nonlinear_arith)
                    requires
                        hhi * hhi * w <= m * h,
                        w >= 1,
                        h <= m,
                        hhi >= 0,
                        m >= 1,
                ;
                assert(wwi * hhi <= m) by (nonlinear_arith)
                    requires
                        wwi * h <= hhi * w,
                        hhi * hhi * w <= m * h,
                        h >= 1,
                        hhi >= 0,
                        wwi >= 0,
                ;
                assert(wwi <= m) by (nonlinear_arith)
                    requires
                        wwi * hhi <= m,
                        wwi == (hhi * w) / h,
                        hhi * w < (wwi + 1) * h,
                        hhi >= 0,
                        wwi >= 0,
                        h >= 1,
                        m >= 1,
                ;
            }
            Rect { x, y, width: ww as u16, height: hh as u16 }
        }
    }

    /// The number of cells the rectangle covers, capped at [`MAX_AREA`].
    pub fn area(self) -> (r: u16)
        ensures
            self.width * self.height <= MAX_AREA ==> r == self.width * self.height,
            self.width * self.height > MAX_AREA ==> r == MAX_AREA,
    {
        proof {
            assert(self.width * self.height <= 0xFFFE0001) by (nonlinear_arith)
                requires
                    self.width <= 0xFFFF && self.height <= 0xFFFF,
            ;
        }
        let p: u32 = (self.width as u32) * (self.height as u32);
        if p > MAX_AREA as u32 {
            MAX_AREA
        } else {
            p as u16
        }
    }

    /// Whether the rectangle covers no cell.
    pub fn is_empty(self) -> (r: bool)
        ensures
            r == (self.width == 0 || self.height == 0),
    {
        self.width == 0 || self.height == 0
    }

    /// The column of the left edge.
    pub fn left(self) -> (r: u16)
        ensures
            r == self.x,
    {
        self.x
    }

    /// The first column right of the rectangle, capped at the largest
    /// coordinate.
    pub fn right(self) -> (r: u16)
        ensures
            r == self.spec_right(),
    {
        let s: u32 = self.x as u32 + self.width as u32;
        if s > MAX_AREA as u32 {
            MAX_AREA
        } else {
            s as u16
        }
    }

    /// The first column right of the rectangle, capped.
    pub open spec fn spec_right(self) -> int {
        if self.x + self.width > MAX_AREA {
            MAX_AREA as int
        } else {
            self.x + self.width
        }
    }

    /// The row of the top edge.
    pub fn top(self) -> (r: u16)
        ensures
            r == self.y,
    {
        self.y
    }

    /// The first row below the rectangle, capped at the largest coordinate.
    pub fn bottom(self) -> (r: u16)
        ensures
            r == self.spec_bottom(),
    {
        let s: u32 = self.y as u32 + self.height as u32;
        if s > MAX_AREA as u32 {
            MAX_AREA
        } else {
            s as u16
        }
    }

    /// The first row below the rectangle, capped.
    pub open spec fn spec_bottom(self) -> int {
        if self.y + self.height > MAX_AREA {
            MAX_AREA as int
        } else {
            self.y + self.height
        }
    }

    /// The rectangle that remains when the margin is taken off every side.
    ///
    /// A margin at least half as large as an extent leaves no area: the
    /// result is then the zero rectangle.
    pub fn inner(self, margin: &Margin) -> (r: Rect)
        ensures
            self.width < 2 * margin.horizontal || self.height < 2 * margin.vertical ==> r
                == (Rect { x: 0, y: 0, width: 0, height: 0 }),
            self.width >= 2 * margin.horizontal && self.height >= 2 * margin.vertical ==> {
                &&& r.x == if self.x + margin.horizontal > MAX_AREA {
                    MAX_AREA as int
                } else {
                    self.x + margin.horizontal
                }
                &&& r.y == if self.y + margin.vertical > MAX_AREA {
                    MAX_AREA as int
                } else {
                    self.y + margin.vertical
                }
                &&& r.width == self.width - 2 * margin.horizontal
                &&& r.height == self.height - 2 * margin.vertical
            },
    {
        let doubled_h: u32 = 2 * margin.horizontal as u32;
        let doubled_v: u32 = 2 * margin.vertical as u32;
        if (self.width as u32) < doubled_h || (self.height as u32) < doubled_v {
            Rect { x: 0, y: 0, width: 0, height: 0 }
        } else {
            let x: u32 = self.x as u32 + margin.horizontal as u32;
            let y: u32 = self.y as u32 + margin.vertical as u32;
            Rect {
                x: if x > MAX_AREA as u32 {
                    MAX_AREA
                } else {
                    x as u16
                },
                y: if y > MAX_AREA as u32 {
                    MAX_AREA
                } else {
                    y as u16
                },
                width: self.width - (doubled_h as u16),
                height: self.height - (doubled_v as u16),
            }
        }
    }

    /// Move the rectangle by the given offset without changing its size.
    ///
    /// The corner is clamped so that the rectangle stays on the grid: the
    /// new `x` lies in `[0, MAX_AREA - width]`, and likewise for `y`.
    pub fn offset(self, offset: Offset) -> (r: Rect)
        ensures
            r.width == self.width,
            r.height == self.height,
            r.x == Self::clamped_move(self.x as int, offset.x as int, self.width as int),
            r.y == Self::clamped_move(self.y as int, offset.y as int, self.height as int),
    {
        Rect {
            x: Self::move_coord(self.x, offset.x, self.width),
            y: Self::move_coord(self.y, offset.y, self.height),
            ..self
        }
    }

    /// A coordinate moved by a signed delta and clamped to
    /// `[0, MAX_AREA - extent]`.
    pub open spec fn clamped_move(base: int, delta: int, extent: int) -> int {
        let target = base + delta;
        let hi = MAX_AREA - extent;
        if target < 0 {
            0
        } else if target > hi {
            hi
        } else {
            target
        }
    }

    /// Move one coordinate, clamping to `[0, MAX_AREA - extent]`.
    fn move_coord(base: u16, delta: i32, extent: u16) -> (r: u16)
        ensures
            r == Self::clamped_move(base as int, delta as int, extent as int),
    {
        let target: i64 = base as i64 + delta as i64;
        let hi: i64 = MAX_AREA as i64 - extent as i64;
        if target < 0 {
            0
        } else if target > hi {
            hi as u16
        } else {
            target as u16
        }
    }

    /// The smallest rectangle that contains both `self` and `other`.
    pub fn union(self, other: Rect) -> (r: Rect)
        ensures
            r.x == if self.x <= other.x {
                self.x
            } else {
                other.x
            },
            r.y == if self.y <= other.y {
                self.y
            } else {
                other.y
            },
            r.x + r.width == if self.spec_right() >= other.spec_right() {
                self.spec_right()
            } else {
                other.spec_right()
            },
            r.y + r.height == if self.spec_bottom() >= other.spec_bottom() {
                self.spec_bottom()
            } else {
                other.spec_bottom()
            },
    {
        let x1 = if self.x <= other.x {
            self.x
        } else {
            other.x
        };
        let y1 = if self.y <= other.y {
            self.y
        } else {
            other.y
        };
        let sr = self.right();
        let or_ = other.right();
        let x2 = if sr >= or_ {
            sr
        } else {
            or_
        };
        let sb = self.bottom();
        let ob = other.bottom();
        let y2 = if sb >= ob {
            sb
        } else {
            ob
        };
        Rect { x: x1, y: y1, width: x2 - x1, height: y2 - y1 }
    }

    /// The overlap of `self` and `other`; the zero-extent rectangle at the
    /// far corner when they do not intersect.
    pub fn intersection(self, other: Rect) -> (r: Rect)
        ensures
            r.x == if self.x >= other.x {
                self.x
            } else {
                other.x
            },
            r.y == if self.y >= other.y {
                self.y
            } else {
                other.y
            },
            r.x + r.width == max_int(r.x as int, min_int(self.spec_right(), other.spec_right())),
            r.y + r.height == max_int(r.y as int, min_int(self.spec_bottom(), other.spec_bottom())),
    {
        let x1 = if self.x >= other.x {
            self.x
        } else {
            other.x
        };
        let y1 = if self.y >= other.y {
            self.y
        } else {
            other.y
        };
        let sr = self.right();
        let or_ = other.right();
        let x2 = if sr <= or_ {
            sr
        } else {
            or_
        };
        let sb = self.bottom();
        let ob = other.bottom();
        let y2 = if sb <= ob {
            sb
        } else {
            ob
        };
        let width = if x2 >= x1 {
            x2 - x1
        } else {
            0
        };
        let height = if y2 >= y1 {
            y2 - y1
        } else {
            0
        };
        Rect { x: x1, y: y1, width, height }
    }

    /// Whether the two rectangles share at least one cell.
    pub fn intersects(self, other: Rect) -> (r: bool)
        ensures
            r == (self.x < other.spec_right() && self.spec_right() > other.x && self.y
                < other.spec_bottom() && self.spec_bottom() > other.y),
    {
        self.x < other.right() && self.right() > other.x && self.y < other.bottom()
            && self.bottom() > other.y
    }

    /// Move and shrink this rectangle until it fits inside `other`.
    ///
    /// Extents are capped by `other`'s extents; then the corner is moved
    /// into the range that keeps the rectangle inside `other`.
    pub fn clamp(self, other: Rect) -> (r: Rect)
        ensures
            r.width == min_int(self.width as int, other.width as int),
            r.height == min_int(self.height as int, other.height as int),
            r.x == clamp_int(
                self.x as int,
                other.x as int,
                max_int(other.x as int, other.spec_right() - min_int(self.width as int, other.width as int)),
            ),
            r.y == clamp_int(
                self.y as int,
                other.y as int,
                max_int(other.y as int, other.spec_bottom() - min_int(self.height as int, other.height as int)),
            ),
    {
        let width = if self.width <= other.width {
            self.width
        } else {
            other.width
        };
        let height = if self.height <= other.height {
            self.height
        } else {
            other.height
        };
        let hi_x0 = other.right();
        let hi_x = if hi_x0 >= width {
            hi_x0 - width
        } else {
            0
        };
        let hi_x = if hi_x >= other.x {
            hi_x
        } else {
            other.x
        };
        let hi_y0 = other.bottom();
        let hi_y = if hi_y0 >= height {
            hi_y0 - height
        } else {
            0
        };
        let hi_y = if hi_y >= other.y {
            hi_y
        } else {
            other.y
        };
        let x = if self.x < other.x {
            other.x
        } else if self.x > hi_x {
            hi_x
        } else {
            self.x
        };
        let y = if self.y < other.y {
            other.y
        } else if self.y > hi_y {
            hi_y
        } else {
            self.y
        };
        Rect { x, y, width, height }
    }

    /// An iterator-like cursor over the rows of the rectangle, from top to
    /// bottom.
    pub fn rows(&self) -> (r: Rows)
        ensures
            r.rect == *self,
            r.current_row == self.y,
    {
        Rows { rect: *self, current_row: self.y }
    }

    /// An iterator-like cursor over the columns of the rectangle, from left
    /// to right.
    pub fn columns(&self) -> (r: Columns)
        ensures
            r.rect == *self,
            r.current_column == self.x,
    {
        Columns { rect: *self, current_column: self.x }
    }

    /// The position of the top-left corner.
    pub fn as_position(self) -> (r: Position)
        ensures
            r.x == self.x,
            r.y == self.y,
    {
        Position { x: self.x, y: self.y }
    }

    /// The extent of the rectangle.
    pub fn as_size(self) -> (r: Size)
        ensures
            r.width == self.width,
            r.height == self.height,
    {
        Size { width: self.width, height: self.height }
    }

    /// The rectangle written as `WIDTHxHEIGHT+X+Y`.
    pub fn to_string(self) -> (r: String)
        ensures
            r@ == decimal::dec_rep(self.width as int).push('x') + decimal::dec_rep(
                self.height as int,
            ).push('+') + decimal::dec_rep(self.x as int).push('+') + decimal::dec_rep(
                self.y as int,
            ),
    {
        proof {
            reveal_strlit("x");
            reveal_strlit("+");
        }
        let mut s = String::new();
        decimal::push_u16(&mut s, self.width);
        vstd::string::StringExecFns::append(&mut s, "x");
        decimal::push_u16(&mut s, self.height);
        vstd::string::StringExecFns::append(&mut s, "+");
        decimal::push_u16(&mut s, self.x);
        vstd::string::StringExecFns::append(&mut s, "+");
        decimal::push_u16(&mut s, self.y);
        proof {
            assert(s@ =~= decimal::dec_rep(self.width as int).push('x') + decimal::dec_rep(
                self.height as int,
            ).push('+') + decimal::dec_rep(self.x as int).push('+') + decimal::dec_rep(
                self.y as int,
            ));
        }
        s
    }
}

/// The smaller of two integers.
pub open spec fn min_int(a: int, b: int) -> int {
    if a <= b {
        a
    } else {
        b
    }
}

/// The larger of two integers.
pub open spec fn max_int(a: int, b: int) -> int {
    if a >= b {
        a
    } else {
        b
    }
}

/// `v` clamped into `[lo, hi]`, where `lo <= hi`.
pub open spec fn clamp_int(v: int, lo: int, hi: int) -> int {
    if v < lo {
        lo
    } else if v > hi {
        hi
    } else {
        v
    }
}

impl From<(Position, Size)> for Rect {
    /// The rectangle with the given top-left corner and extent.
    fn from(pair: (Position, Size)) -> (r: Rect) {
        Rect { x: pair.0.x, y: pair.0.y, width: pair.1.width, height: pair.1.height }
    }
}

impl vstd::std_specs::convert::FromSpecImpl<(Position, Size)> for Rect {
    open spec fn obeys_from_spec() -> bool {
        true
    }

    open spec fn from_spec(pair: (Position, Size)) -> Rect {
        Rect { x: pair.0.x, y: pair.0.y, width: pair.1.width, height: pair.1.height }
    }
}

impl From<Rect> for Position {
    /// The top-left corner of the rectangle.
    fn from(rect: Rect) -> (r: Position) {
        Position { x: rect.x, y: rect.y }
    }
}

impl vstd::std_specs::convert::FromSpecImpl<Rect> for Position {
    open spec fn obeys_from_spec() -> bool {
        true
    }

    open spec fn from_spec(rect: Rect) -> Position {
        Position { x: rect.x, y: rect.y }
    }
}

impl From<Rect> for Size {
    /// The extent of the rectangle.
    fn from(rect: Rect) -> (r: Size) {
        Size { width: rect.width, height: rect.height }
    }
}

impl vstd::std_specs::convert::FromSpecImpl<Rect> for Size {
    open spec fn obeys_from_spec() -> bool {
        true
    }

    open spec fn from_spec(rect: Rect) -> Size {
        Size { width: rect.width, height: rect.height }
    }
}

/// A cursor handing out the single-row rectangles of a [`Rect`], top to
/// bottom.
#[derive(Debug, Clone, Copy, PartialEq, Eq, Structural)]
pub struct Rows {
    /// The rectangle whose rows are walked.
    pub rect: Rect,
    /// The row the next step will yield.
    pub current_row: u16,
}

impl Rows {
    /// The next row, or `None` once every row has been handed out.
    pub fn next(&mut self) -> (r: Option<Rect>)
        ensures
            final(self).rect == old(self).rect,
            old(self).current_row >= old(self).rect.spec_bottom() ==> r is None && *final(self)
                == *old(self),
            old(self).current_row < old(self).rect.spec_bottom() ==> {
                &&& r == Some(
                    Rect {
                        x: old(self).rect.x,
                        y: old(self).current_row,
                        width: old(self).rect.width,
                        height: 1u16,
                    },
                )
                &&& final(self).current_row == old(self).current_row + 1
            },
    {
        if self.current_row >= self.rect.bottom() {
            return None;
        }
        let row = Rect { x: self.rect.x, y: self.current_row, width: self.rect.width, height: 1 };
        self.current_row = self.current_row + 1;
        Some(row)
    }
}

/// A cursor handing out the single-column rectangles of a [`Rect`], left
/// to right.
#[derive(Debug, Clone, Copy, PartialEq, Eq, Structural)]
pub struct Columns {
    /// The rectangle whose columns are walked.
    pub rect: Rect,
    /// The column the next step will yield.
    pub current_column: u16,
}

impl Columns {
    /// The next column, or `None` once every column has been handed out.
    pub fn next(&mut self) -> (r: Option<Rect>)
        ensures
            final(self).rect == old(self).rect,
            old(self).current_column >= old(self).rect.spec_right() ==> r is None && *final(self)
                == *old(self),
            old(self).current_column < old(self).rect.spec_right() ==> {
                &&& r == Some(
                    Rect {
                        x: old(self).current_column,
                        y: old(self).rect.y,
                        width: 1u16,
                        height: old(self).rect.height,
                    },
                )
                &&& final(self).current_column == old(self).current_column + 1
            },
    {
        if self.current_column >= self.rect.right() {
            return None;
        }
        let column = Rect {
            x: self.current_column,
            y: self.rect.y,
            width: 1,
            height: self.rect.height,
        };
        self.current_column = self.current_column + 1;
        Some(column)
    }
}

} // verus!
