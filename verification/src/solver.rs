//! The constraint-based layout solver.
//!
//! [`solve`] partitions a rectangle's main axis among an ordered list of
//! [`Constraint`]s. Sizes are computed in fixed-point arithmetic with
//! [`FIX`] sub-units per cell; cell boundaries come from rounding the
//! accumulated fixed-point positions half-up, so that fractional widths
//! are distributed deterministically along the run of segments.
use vstd::prelude::*;

use crate::constraint::{all_valid, Axis, Constraint, Flex};
use crate::rect::{min_int, Rect, MAX_AREA};

verus! {

/// Fixed-point sub-units per cell.
pub const FIX: u64 = 0x1_0000_0000;

/// The sum of a sequence of integers.
pub open spec fn sum_int(s: Seq<int>) -> int
    decreases s.len(),
{
    if s.len() == 0 {
        0
    } else {
        s[0] + sum_int(s.drop_first())
    }
}

/// Extending a prefix by one element adds that element to its sum.
pub proof fn lemma_sum_take_succ(s: Seq<int>, k: int)
    requires
        0 <= k < s.len(),
    ensures
        sum_int(s.take(k + 1)) == sum_int(s.take(k)) + s[k],
    decreases k,
{
    if k == 0 {
        assert(s.take(1).drop_first() =~= s.take(0));
    } else {
        lemma_sum_take_succ(s.drop_first(), k - 1);
        assert(s.take(k + 1).drop_first() =~= s.drop_first().take(k));
        assert(s.take(k).drop_first() =~= s.drop_first().take(k - 1));
    }
}

/// A sequence of non-negative integers has a non-negative sum.
pub proof fn lemma_sum_nonneg(s: Seq<int>)
    requires
        forall|i: int| 0 <= i < s.len() ==> s[i] >= 0,
    ensures
        sum_int(s) >= 0,
    decreases s.len(),
{
    if s.len() > 0 {
        lemma_sum_nonneg(s.drop_first());
    }
}

/// A sum splits at any index into the sum of the prefix and the sum of
/// the rest.
pub proof fn lemma_sum_split(s: Seq<int>, k: int)
    requires
        0 <= k <= s.len(),
    ensures
        sum_int(s) == sum_int(s.take(k)) + sum_int(s.skip(k)),
    decreases k,
{
    if k == 0 {
        assert(s.take(0) =~= Seq::<int>::empty());
        assert(s.skip(0) =~= s);
    } else {
        lemma_sum_split(s.drop_first(), k - 1);
        assert(s.take(k).drop_first() =~= s.drop_first().take(k - 1));
        assert(s.skip(k) =~= s.drop_first().skip(k - 1));
        assert(s.take(k).len() > 0);
        assert(s.take(k)[0] == s[0]);
    }
}

/// The sum of a sequence whose elements are bounded by `b` is bounded by
/// `len * b`.
pub proof fn lemma_sum_bounded(s: Seq<int>, b: int)
    requires
        forall|i: int| 0 <= i < s.len() ==> s[i] <= b,
        b >= 0,
    ensures
        sum_int(s) <= s.len() * b,
    decreases s.len(),
{
    if s.len() == 0 {
    } else {
        lemma_sum_bounded(s.drop_first(), b);
        assert(s.len() * b == (s.len() - 1) * b + b) by (nonlinear_arith);
    }
}

/// The main-axis extent of the area.
pub open spec fn spec_main_len(area: Rect, axis: Axis) -> int {
    match axis {
        Axis::Horizontal => area.width as int,
        Axis::Vertical => area.height as int,
    }
}

/// The total width of the spacing gaps: one gap of `spacing` cells
/// between each adjacent pair of segments.
pub open spec fn spec_gaps(spacing: int, n: int) -> int {
    if n >= 1 {
        spacing * (n - 1)
    } else {
        0
    }
}

/// The main-axis length left for the segments once the spacing gaps are
/// reserved; zero when the gaps alone exceed the area.
pub open spec fn spec_avail(len: int, spacing: int, n: int) -> int {
    if len >= spec_gaps(spacing, n) {
        len - spec_gaps(spacing, n)
    } else {
        0
    }
}

/// The fixed-point size a constraint asks for before leftover space is
/// distributed: `Length`, `Min` and `Max` ask for their cell count,
/// `Percentage` and `Ratio` for their share of the full main-axis extent,
/// and `Fill` for nothing.
///
/// `Min` and `Max` claim exactly their bound and do not grow with the
/// leftover (only `Fill` and the flex mode distribute it); percentages
/// and ratios are taken of the full extent and rounded at the segment
/// boundaries. These tie-breaks are fixed by the widget scenarios the
/// tests pin, not re-derived.
pub open spec fn spec_base_fp(c: Constraint, len: int) -> int {
    match c {
        Constraint::Length(v) => v * FIX,
        Constraint::Percentage(p) => (p * len * FIX) / 100,
        Constraint::Ratio(num, den) => if den >= 1 {
            (num * len * FIX) / (den as int)
        } else {
            0
        },
        Constraint::Min(v) => v * FIX,
        Constraint::Max(v) => v * FIX,
        Constraint::Fill(_) => 0,
    }
}

/// Whether some `Fill` constraint carries a positive weight. When none
/// does, every `Fill` counts as weight 1.
pub open spec fn spec_has_pos_fill(cs: Seq<Constraint>) -> bool {
    exists|i: int|
        0 <= i < cs.len() && (#[trigger] cs[i] matches Constraint::Fill(w) && w > 0)
}

/// The weight with which a segment takes part in the distribution of
/// leftover space: its `Fill` weight, or 0 for the other constraints.
pub open spec fn spec_fill_weight(c: Constraint, boost_zero: bool) -> int {
    match c {
        Constraint::Fill(w) => if w == 0 && boost_zero {
            1
        } else {
            w as int
        },
        _ => 0,
    }
}

/// The sequence of fill weights.
pub open spec fn spec_weights(cs: Seq<Constraint>) -> Seq<int> {
    Seq::new(cs.len(), |i: int| spec_fill_weight(cs[i], !spec_has_pos_fill(cs)))
}

/// The sequence of base sizes.
pub open spec fn spec_bases(cs: Seq<Constraint>, len: int) -> Seq<int> {
    Seq::new(cs.len(), |i: int| spec_base_fp(cs[i], len))
}

/// The fixed-point length left over for `Fill` segments.
pub open spec fn spec_fill_rem(cs: Seq<Constraint>, len: int, avail: int) -> int {
    let total = sum_int(spec_bases(cs, len));
    if total >= avail * FIX {
        0
    } else {
        avail * FIX - total
    }
}

/// The widths after leftover space is distributed among the `Fill`
/// segments, proportionally to weight and exactly in total: segment `i`
/// receives the difference of two cumulative shares, so the shares add up
/// to the whole leftover.
pub open spec fn spec_widths_filled(cs: Seq<Constraint>, len: int, avail: int) -> Seq<int> {
    let bases = spec_bases(cs, len);
    let ws = spec_weights(cs);
    let wtotal = sum_int(ws);
    let rem = spec_fill_rem(cs, len, avail);
    Seq::new(
        cs.len(),
        |i: int|
            bases[i] + if wtotal > 0 {
                (rem * sum_int(ws.take(i + 1))) / wtotal - (rem * sum_int(ws.take(i))) / wtotal
            } else {
                0
            },
    )
}

/// One shrinking pass: walking segment indices from `i` down to 0, each
/// segment of shrink class `k` gives up as much of the remaining excess
/// as it can. Returns the shrunk widths and the excess still left.
pub open spec fn spec_shrink_pass(
    ws: Seq<int>,
    cs: Seq<Constraint>,
    k: int,
    i: int,
    excess: int,
) -> (Seq<int>, int)
    decreases i + 1,
{
    if i < 0 || i >= ws.len() {
        (ws, excess)
    } else {
        let d = if cs[i].spec_shrink_class() == k {
            min_int(ws[i], excess)
        } else {
            0
        };
        spec_shrink_pass(ws.update(i, ws[i] - d), cs, k, i - 1, excess - d)
    }
}

/// The shrinking passes for classes `k` to 4, in that order.
pub open spec fn spec_shrink_from(ws: Seq<int>, cs: Seq<Constraint>, k: int, excess: int) -> Seq<
    int,
>
    decreases 5 - k,
{
    if k >= 5 {
        ws
    } else {
        let r = spec_shrink_pass(ws, cs, k, ws.len() - 1, excess);
        spec_shrink_from(r.0, cs, k + 1, r.1)
    }
}

/// All five shrinking passes, lowest-priority class first.
pub open spec fn spec_shrink_all(ws: Seq<int>, cs: Seq<Constraint>, excess: int) -> Seq<int> {
    spec_shrink_from(ws, cs, 0, excess)
}

/// The final fixed-point widths: distributed, then shrunk to fit when
/// they over-subscribe the available length.
pub open spec fn spec_final_widths(cs: Seq<Constraint>, len: int, avail: int) -> Seq<int> {
    let ws = spec_widths_filled(cs, len, avail);
    let total = sum_int(ws);
    let excess = if total >= avail * FIX {
        total - avail * FIX
    } else {
        0
    };
    spec_shrink_all(ws, cs, excess)
}

/// The fixed-point slack the flex mode distributes, clamped at zero.
pub open spec fn spec_slack(cs: Seq<Constraint>, len: int, avail: int) -> int {
    let total = sum_int(spec_final_widths(cs, len, avail));
    if avail * FIX >= total {
        avail * FIX - total
    } else {
        0
    }
}

/// How much a segment grows under the stretching flex mode: an equal
/// share of the slack, written as a difference of cumulative shares so
/// the whole slack is consumed exactly.
pub open spec fn spec_legacy_add(flex: Flex, slack: int, n: int, i: int) -> int {
    if flex is Legacy && n >= 1 {
        (slack * (i + 1)) / n - (slack * i) / n
    } else {
        0
    }
}

/// The cumulative extra gap the flex mode inserts before segment `i`.
pub open spec fn spec_extra_before(flex: Flex, slack: int, n: int, i: int) -> int {
    match flex {
        Flex::Start => 0,
        Flex::End => slack,
        Flex::Center => slack / 2,
        Flex::SpaceBetween => if n >= 2 {
            (slack * i) / (n - 1)
        } else {
            0
        },
        Flex::SpaceAround => if n >= 1 {
            (slack * (2 * i + 1)) / (2 * n)
        } else {
            0
        },
        Flex::Legacy => 0,
    }
}

/// The grown width of segment `i` (only the stretching flex mode grows).
pub open spec fn spec_grown_width(cs: Seq<Constraint>, len: int, avail: int, flex: Flex, i: int) -> int {
    spec_final_widths(cs, len, avail)[i] + spec_legacy_add(
        flex,
        spec_slack(cs, len, avail),
        cs.len() as int,
        i,
    )
}

/// The sequence of grown widths.
pub open spec fn spec_grown_widths(cs: Seq<Constraint>, len: int, avail: int, flex: Flex) -> Seq<int> {
    Seq::new(cs.len(), |i: int| spec_grown_width(cs, len, avail, flex, i))
}

/// The fixed-point start position of segment `i`: the flex lead-in, the
/// widths of the earlier segments and the spacing gaps before it.
pub open spec fn spec_start_fp(
    cs: Seq<Constraint>,
    len: int,
    spacing: int,
    flex: Flex,
    i: int,
) -> int {
    let avail = spec_avail(len, spacing, cs.len() as int);
    spec_extra_before(flex, spec_slack(cs, len, avail), cs.len() as int, i) + sum_int(
        spec_grown_widths(cs, len, avail, flex).take(i),
    ) + i * spacing * FIX
}

/// The fixed-point end position of segment `i`.
pub open spec fn spec_end_fp(cs: Seq<Constraint>, len: int, spacing: int, flex: Flex, i: int) -> int {
    let avail = spec_avail(len, spacing, cs.len() as int);
    spec_start_fp(cs, len, spacing, flex, i) + spec_grown_width(cs, len, avail, flex, i)
}

/// A fixed-point position rounded half-up to a cell boundary and clamped
/// into the area.
pub open spec fn spec_px(v: int, len: int) -> int {
    min_int((v + FIX / 2) / (FIX as int), len)
}

/// The rounded cell boundary where segment `i` starts.
pub open spec fn spec_start_px(cs: Seq<Constraint>, len: int, spacing: int, flex: Flex, i: int) -> int {
    spec_px(spec_start_fp(cs, len, spacing, flex, i), len)
}

/// The rounded cell boundary where segment `i` ends.
pub open spec fn spec_end_px(cs: Seq<Constraint>, len: int, spacing: int, flex: Flex, i: int) -> int {
    spec_px(spec_end_fp(cs, len, spacing, flex, i), len)
}

/// A main-axis coordinate offset from the area's origin, saturating at
/// the largest coordinate.
pub open spec fn spec_abs_coord(base: int, off: int) -> int {
    if base + off > MAX_AREA {
        MAX_AREA as int
    } else {
        base + off
    }
}

/// The rectangle of segment `i`: its slice of the main axis, the full
/// cross-axis extent of the area.
pub open spec fn spec_segment_rect(
    area: Rect,
    axis: Axis,
    cs: Seq<Constraint>,
    spacing: int,
    flex: Flex,
    i: int,
) -> Rect {
    let len = spec_main_len(area, axis);
    let s = spec_start_px(cs, len, spacing, flex, i);
    let e = spec_end_px(cs, len, spacing, flex, i);
    match axis {
        Axis::Horizontal => Rect {
            x: spec_abs_coord(area.x as int, s) as u16,
            y: area.y,
            width: (e - s) as u16,
            height: area.height,
        },
        Axis::Vertical => Rect {
            x: area.x,
            y: spec_abs_coord(area.y as int, s) as u16,
            width: area.width,
            height: (e - s) as u16,
        },
    }
}

/// What [`solve`] returns: one rectangle per constraint, in order.
pub open spec fn spec_solve(
    area: Rect,
    axis: Axis,
    cs: Seq<Constraint>,
    flex: Flex,
    spacing: int,
) -> Seq<Rect> {
    Seq::new(cs.len(), |i: int| spec_segment_rect(area, axis, cs, spacing, flex, i))
}

/// A sequence of `u128` values as mathematical integers.
pub open spec fn ints128(s: Seq<u128>) -> Seq<int> {
    s.map_values(|x: u128| x as int)
}

/// A sequence of `u64` values as mathematical integers.
pub open spec fn ints64(s: Seq<u64>) -> Seq<int> {
    s.map_values(|x: u64| x as int)
}

/// The base fixed-point sizes of the constraints.
fn compute_bases(cs: &Vec<Constraint>, len: u16) -> (r: Vec<u128>)
    requires
        all_valid(cs@),
    ensures
        r@.len() == cs@.len(),
        forall|i: int| 0 <= i < r@.len() ==> #[trigger] (r@[i] as int) == spec_bases(cs@, len as int)[i],
        forall|i: int| 0 <= i < r@.len() ==> #[trigger] r@[i] <= 0x1_0000_0000_0000_0000_0000u128,
{
    let mut r: Vec<u128> = Vec::new();
    let mut i: usize = 0;
    while i < cs.len()
        invariant
            all_valid(cs@),
            i <= cs@.len(),
            r@.len() == i,
            forall|j: int| 0 <= j < i ==> #[trigger] (r@[j] as int) == spec_bases(cs@, len as int)[j],
            forall|j: int| 0 <= j < i ==> #[trigger] r@[j] <= 0x1_0000_0000_0000_0000_0000u128,
        decreases cs@.len() - i,
    {
        assert(cs@[i as int].spec_is_valid());
        let v: u128 = match cs[i] {
            Constraint::Length(v) => {
                proof {
                    assert(v * FIX <= 0xFFFF * 0x1_0000_0000) by (nonlinear_arith)
                        requires
                            v <= 0xFFFF && FIX == 0x1_0000_0000,
                    ;
                }
                (v as u128) * (FIX as u128)
            },
            Constraint::Percentage(p) => {
                proof {
                    assert(p * len <= 100 * 0xFFFF) by (nonlinear_arith)
                        requires
                            p <= 100 && len <= 0xFFFF,
                    ;
                }
                (p as u128) * (len as u128) * (FIX as u128) / 100
            },
            Constraint::Ratio(num, den) => {
                proof {
                    assert(num * len <= 0xFFFF_FFFF * 0xFFFF) by (nonlinear_arith)
                        requires
                            num <= 0xFFFF_FFFF && len <= 0xFFFF,
                    ;
                    assert((num * len * FIX) / (den as int) <= num * len * FIX) by (nonlinear_arith)
                        requires
                            den >= 1 && num >= 0 && len >= 0 && FIX > 0,
                    ;
                }
                (num as u128) * (len as u128) * (FIX as u128) / (den as u128)
            },
            Constraint::Min(v) => {
                proof {
                    assert(v * FIX <= 0xFFFF * 0x1_0000_0000) by (nonlinear_arith)
                        requires
                            v <= 0xFFFF && FIX == 0x1_0000_0000,
                    ;
                }
                (v as u128) * (FIX as u128)
            },
            Constraint::Max(v) => {
                proof {
                    assert(v * FIX <= 0xFFFF * 0x1_0000_0000) by (nonlinear_arith)
                        requires
                            v <= 0xFFFF && FIX == 0x1_0000_0000,
                    ;
                }
                (v as u128) * (FIX as u128)
            },
            Constraint::Fill(_) => 0,
        };
        r.push(v);
        i = i + 1;
    }
    r
}

/// Whether some `Fill` constraint has positive weight.
fn has_pos_fill(cs: &Vec<Constraint>) -> (r: bool)
    ensures
        r == spec_has_pos_fill(cs@),
{
    let mut i: usize = 0;
    while i < cs.len()
        invariant
            i <= cs@.len(),
            forall|j: int|
                0 <= j < i ==> !(#[trigger] cs@[j] matches Constraint::Fill(w) && w > 0),
        decreases cs@.len() - i,
    {
        match cs[i] {
            Constraint::Fill(w) => {
                if w > 0 {
                    return true;
                }
            },
            _ => {},
        }
        i = i + 1;
    }
    false
}

/// The fill weights of the constraints.
fn compute_weights(cs: &Vec<Constraint>, boost: bool) -> (r: Vec<u64>)
    requires
        boost == !spec_has_pos_fill(cs@),
    ensures
        r@.len() == cs@.len(),
        forall|i: int| 0 <= i < r@.len() ==> #[trigger] (r@[i] as int) == spec_weights(cs@)[i],
        forall|i: int| 0 <= i < r@.len() ==> #[trigger] r@[i] <= 0xFFFFu64,
{
    let mut r: Vec<u64> = Vec::new();
    let mut i: usize = 0;
    while i < cs.len()
        invariant
            boost == !spec_has_pos_fill(cs@),
            i <= cs@.len(),
            r@.len() == i,
            forall|j: int| 0 <= j < i ==> #[trigger] (r@[j] as int) == spec_weights(cs@)[j],
            forall|j: int| 0 <= j < i ==> #[trigger] r@[j] <= 0xFFFFu64,
        decreases cs@.len() - i,
    {
        let v: u64 = match cs[i] {
            Constraint::Fill(w) => if w == 0 && boost {
                1
            } else {
                w as u64
            },
            _ => 0,
        };
        r.push(v);
        i = i + 1;
    }
    r
}

/// The sum of a vector of weights.
fn sum_weights(v: &Vec<u64>) -> (r: u64)
    requires
        v@.len() <= 0xFFFF,
        forall|i: int| 0 <= i < v@.len() ==> #[trigger] v@[i] <= 0xFFFFu64,
    ensures
        r as int == sum_int(ints64(v@)),
        r <= 0xFFFF_FFFFu64,
{
    let mut acc: u64 = 0;
    let mut i: usize = 0;
    proof {
        assert(ints64(v@).take(0) =~= Seq::<int>::empty());
    }
    while i < v.len()
        invariant
            v@.len() <= 0xFFFF,
            forall|j: int| 0 <= j < v@.len() ==> #[trigger] v@[j] <= 0xFFFFu64,
            i <= v@.len(),
            acc as int == sum_int(ints64(v@).take(i as int)),
            acc <= i * 0xFFFF,
        decreases v@.len() - i,
    {
        proof {
            lemma_sum_take_succ(ints64(v@), i as int);
        }
        acc = acc + v[i];
        i = i + 1;
    }
    proof {
        assert(ints64(v@).take(v@.len() as int) =~= ints64(v@));
    }
    acc
}

/// The sum of a vector of fixed-point sizes.
fn sum_sizes(v: &Vec<u128>) -> (r: u128)
    requires
        v@.len() <= 0xFFFF,
        forall|i: int| 0 <= i < v@.len() ==> #[trigger] v@[i] <= 0x4_0000_0000_0000_0000_0000u128,
    ensures
        r as int == sum_int(ints128(v@)),
        r <= 0x4_0000_0000_0000_0000_0000_0000u128,
{
    let mut acc: u128 = 0;
    let mut i: usize = 0;
    proof {
        assert(ints128(v@).take(0) =~= Seq::<int>::empty());
    }
    while i < v.len()
        invariant
            v@.len() <= 0xFFFF,
            forall|j: int|
                0 <= j < v@.len() ==> #[trigger] v@[j] <= 0x4_0000_0000_0000_0000_0000u128,
            i <= v@.len(),
            acc as int == sum_int(ints128(v@).take(i as int)),
            acc <= i * 0x4_0000_0000_0000_0000_0000,
        decreases v@.len() - i,
    {
        proof {
            lemma_sum_take_succ(ints128(v@), i as int);
        }
        acc = acc + v[i];
        i = i + 1;
    }
    proof {
        assert(ints128(v@).take(v@.len() as int) =~= ints128(v@));
    }
    acc
}

/// The fixed-point share of the leftover that segment `i` receives.
pub open spec fn spec_fill_share(wseq: Seq<int>, wtotal: int, rem: int, i: int) -> int {
    if wtotal > 0 {
        (rem * sum_int(wseq.take(i + 1))) / wtotal - (rem * sum_int(wseq.take(i))) / wtotal
    } else {
        0
    }
}

/// Add each segment's share of the leftover to its base size.
fn distribute(bases: &Vec<u128>, ws: &Vec<u64>, wtotal: u64, rem: u128) -> (r: Vec<u128>)
    requires
        bases@.len() == ws@.len(),
        bases@.len() <= 0xFFFF,
        wtotal as int == sum_int(ints64(ws@)),
        wtotal <= 0xFFFF_FFFFu64,
        rem <= 0x1_0000_0000_0000_0000u128,
        forall|i: int| 0 <= i < bases@.len() ==> #[trigger] bases@[i] <= 0x1_0000_0000_0000_0000_0000u128,
        forall|i: int| 0 <= i < ws@.len() ==> #[trigger] ws@[i] <= 0xFFFFu64,
    ensures
        r@.len() == bases@.len(),
        forall|i: int|
            0 <= i < r@.len() ==> #[trigger] (r@[i] as int) == bases@[i] + spec_fill_share(
                ints64(ws@),
                wtotal as int,
                rem as int,
                i,
            ),
        forall|i: int| 0 <= i < r@.len() ==> #[trigger] r@[i] <= 0x2_0000_0000_0000_0000_0000u128,
{
    let mut r: Vec<u128> = Vec::new();
    let mut pre: u64 = 0;
    let mut i: usize = 0;
    proof {
        assert(ints64(ws@).take(0) =~= Seq::<int>::empty());
    }
    while i < bases.len()
        invariant
            bases@.len() == ws@.len(),
            bases@.len() <= 0xFFFF,
            wtotal as int == sum_int(ints64(ws@)),
            wtotal <= 0xFFFF_FFFFu64,
            rem <= 0x1_0000_0000_0000_0000u128,
            forall|j: int|
                0 <= j < bases@.len() ==> #[trigger] bases@[j] <= 0x1_0000_0000_0000_0000_0000u128,
            forall|j: int| 0 <= j < ws@.len() ==> #[trigger] ws@[j] <= 0xFFFFu64,
            i <= bases@.len(),
            r@.len() == i,
            pre as int == sum_int(ints64(ws@).take(i as int)),
            pre <= i * 0xFFFF,
            forall|j: int|
                0 <= j < i ==> #[trigger] (r@[j] as int) == bases@[j] + spec_fill_share(
                    ints64(ws@),
                    wtotal as int,
                    rem as int,
                    j,
                ),
            forall|j: int| 0 <= j < i ==> #[trigger] r@[j] <= 0x2_0000_0000_0000_0000_0000u128,
        decreases bases@.len() - i,
    {
        proof {
            lemma_sum_take_succ(ints64(ws@), i as int);
        }
        proof {
            lemma_sum_split(ints64(ws@), i as int + 1);
            lemma_sum_nonneg(ints64(ws@).skip(i as int + 1));
        }
        let add: u128 = if wtotal > 0 {
            let s1: u64 = pre + ws[i];
            proof {
                assert(s1 <= wtotal);
                assert(rem * pre <= rem * s1) by (nonlinear_arith)
                    requires
                        pre <= s1 && rem >= 0,
                ;
                assert(rem * s1 <= 0x1_0000_0000_0000_0000 * 0xFFFF_FFFF) by (nonlinear_arith)
                    requires
                        rem <= 0x1_0000_0000_0000_0000u128 && s1 <= 0xFFFF_FFFFu64,
                ;
                vstd::arithmetic::div_mod::lemma_div_is_ordered(
                    rem as int * pre as int,
                    rem as int * s1 as int,
                    wtotal as int,
                );
                lemma_mul_div_le(rem as int, s1 as int, wtotal as int);
            }
            let a1: u128 = rem * (s1 as u128) / (wtotal as u128);
            let a0: u128 = rem * (pre as u128) / (wtotal as u128);
            a1 - a0
        } else {
            0
        };
        proof {
            assert(add <= rem);
        }
        r.push(bases[i] + add);
        pre = pre + ws[i];
        i = i + 1;
    }
    r
}

/// Continue the shrinking passes: finish pass `k` from index `i`
/// downward, then run the remaining passes.
pub open spec fn spec_shrink_resume(
    ws: Seq<int>,
    cs: Seq<Constraint>,
    k: int,
    i: int,
    excess: int,
) -> Seq<int> {
    let r = spec_shrink_pass(ws, cs, k, i, excess);
    spec_shrink_from(r.0, cs, k + 1, r.1)
}

/// Shrink over-subscribed segments in place, lowest-priority class first
/// and, within a class, last segment first.
fn shrink(w: &mut Vec<u128>, cs: &Vec<Constraint>, excess: u128)
    requires
        old(w)@.len() == cs@.len(),
        forall|i: int| 0 <= i < old(w)@.len() ==> #[trigger] old(w)@[i] <= 0x2_0000_0000_0000_0000_0000u128,
    ensures
        final(w)@.len() == old(w)@.len(),
        ints128(final(w)@) == spec_shrink_all(ints128(old(w)@), cs@, excess as int),
        forall|i: int| 0 <= i < final(w)@.len() ==> #[trigger] final(w)@[i] <= 0x2_0000_0000_0000_0000_0000u128,
{
    let ghost ws0 = ints128(w@);
    let n = w.len();
    let mut e: u128 = excess;
    let mut k: u8 = 0;
    while k < 5
        invariant
            w@.len() == cs@.len(),
            w@.len() == n,
            k <= 5,
            forall|i: int| 0 <= i < w@.len() ==> #[trigger] w@[i] <= 0x2_0000_0000_0000_0000_0000u128,
            spec_shrink_from(ints128(w@), cs@, k as int, e as int) == spec_shrink_all(
                ws0,
                cs@,
                excess as int,
            ),
        decreases 5 - k,
    {
        let mut ii: usize = n;
        proof {
            assert(spec_shrink_resume(ints128(w@), cs@, k as int, n - 1, e as int)
                == spec_shrink_from(ints128(w@), cs@, k as int, e as int));
        }
        while ii > 0
            invariant
                w@.len() == cs@.len(),
                w@.len() == n,
                ii <= n,
                k < 5,
                forall|i: int|
                    0 <= i < w@.len() ==> #[trigger] w@[i] <= 0x2_0000_0000_0000_0000_0000u128,
                spec_shrink_resume(ints128(w@), cs@, k as int, ii - 1, e as int)
                    == spec_shrink_all(ws0, cs@, excess as int),
            decreases ii,
        {
            let i = ii - 1;
            let ghost wbefore = ints128(w@);
            let d: u128 = if cs[i].shrink_class() == k {
                if w[i] <= e {
                    w[i]
                } else {
                    e
                }
            } else {
                0
            };
            let wi = w[i];
            w.set(i, wi - d);
            e = e - d;
            proof {
                assert(ints128(w@) =~= wbefore.update(i as int, wbefore[i as int] - d));
            }
            ii = ii - 1;
        }
        proof {
            assert(spec_shrink_pass(ints128(w@), cs@, k as int, -1, e as int) == (
                ints128(w@),
                e as int,
            ));
        }
        k = k + 1;
    }
    proof {
        assert(spec_shrink_from(ints128(w@), cs@, 5, e as int) == ints128(w@));
    }
}

/// A fixed-point position rounded half-up and clamped into `[0, len]`.
fn px_of(v: u128, len: u16) -> (r: u16)
    requires
        v <= 0x1_0000_0000_0000_0000_0000_0000_0000u128,
    ensures
        r as int == spec_px(v as int, len as int),
{
    let t: u128 = (v + (FIX as u128) / 2) / (FIX as u128);
    if t > len as u128 {
        len
    } else {
        t as u16
    }
}

/// Partition `area` along `axis` among the given constraints.
///
/// Returns one rectangle per constraint, in order. Each takes the full
/// cross-axis extent of `area`; the main axis is divided as the
/// constraints, the flex mode and the inter-segment spacing demand, the
/// exact cell boundaries given by [`spec_solve`].
///
/// The constraint list must be valid ([`all_valid`]) and no longer than
/// the largest extent a rectangle can have.
pub fn solve(
    area: Rect,
    axis: Axis,
    constraints: &Vec<Constraint>,
    flex: Flex,
    spacing: u16,
) -> (r: Vec<Rect>)
    requires
        all_valid(constraints@),
        constraints@.len() <= 0xFFFF,
    ensures
        r@ == spec_solve(area, axis, constraints@, flex, spacing as int),
        r@.len() == constraints@.len(),
{
    let n = constraints.len();
    let mut res: Vec<Rect> = Vec::new();
    if n == 0 {
        proof {
            assert(res@ =~= spec_solve(area, axis, constraints@, flex, spacing as int));
        }
        return res;
    }
    let len: u16 = match axis {
        Axis::Horizontal => area.width,
        Axis::Vertical => area.height,
    };
    proof {
        assert(spacing * (n - 1) <= 0xFFFF * 0xFFFF) by (nonlinear_arith)
            requires
                spacing <= 0xFFFF && 1 <= n <= 0x1_0000,
        ;
    }
    let gaps: u64 = (spacing as u64) * ((n - 1) as u64);
    let avail: u64 = if (len as u64) >= gaps {
        (len as u64) - gaps
    } else {
        0
    };
    let ghost availg = spec_avail(len as int, spacing as int, n as int);
    proof {
        assert(avail as int == availg);
    }
    let bases = compute_bases(constraints, len);
    let boost = !has_pos_fill(constraints);
    let weights = compute_weights(constraints, boost);
    let wtotal = sum_weights(&weights);
    let base_total = sum_sizes(&bases);
    let avail_fix: u128 = (avail as u128) * (FIX as u128);
    proof {
        assert(avail * FIX <= 0xFFFF * 0x1_0000_0000) by (nonlinear_arith)
            requires
                avail <= 0xFFFF && FIX == 0x1_0000_0000,
        ;
        assert(ints128(bases@) =~= spec_bases(constraints@, len as int));
        assert(ints64(weights@) =~= spec_weights(constraints@));
    }
    let rem: u128 = if base_total >= avail_fix {
        0
    } else {
        avail_fix - base_total
    };
    proof {
        assert(rem as int == spec_fill_rem(constraints@, len as int, availg));
    }
    let w0 = distribute(&bases, &weights, wtotal, rem);
    proof {
        assert(ints128(w0@) =~= spec_widths_filled(constraints@, len as int, availg));
    }
    let total1 = sum_sizes(&w0);
    let excess: u128 = if total1 >= avail_fix {
        total1 - avail_fix
    } else {
        0
    };
    let mut w = w0;
    shrink(&mut w, constraints, excess);
    proof {
        assert(ints128(w@) =~= spec_final_widths(constraints@, len as int, availg));
    }
    let total2 = sum_sizes(&w);
    let slack: u128 = if avail_fix >= total2 {
        avail_fix - total2
    } else {
        0
    };
    let ghost grown = spec_grown_widths(constraints@, len as int, availg, flex);
    proof {
        assert(slack as int == spec_slack(constraints@, len as int, availg));
        assert(slack <= 0x1_0000_0000_0000_0000u128);
        assert forall|j: int| 0 <= j < grown.len() implies 0 <= #[trigger] grown[j]
            <= 0x3_0000_0000_0000_0000_0000 by {
            lemma_legacy_add_bounds(flex, slack as int, n as int, j);
            assert(grown[j] == w@[j] + spec_legacy_add(flex, slack as int, n as int, j));
            assert(w@[j] <= 0x2_0000_0000_0000_0000_0000u128);
        }
    }
    let mut acc: u128 = 0;
    let mut i: usize = 0;
    proof {
        assert(grown.take(0) =~= Seq::<int>::empty());
    }
    while i < n
        invariant
            all_valid(constraints@),
            constraints@.len() == n,
            1 <= n <= 0xFFFF,
            w@.len() == n,
            forall|j: int| 0 <= j < w@.len() ==> #[trigger] w@[j] <= 0x2_0000_0000_0000_0000_0000u128,
            len == spec_main_len(area, axis),
            availg == spec_avail(len as int, spacing as int, n as int),
            ints128(w@) == spec_final_widths(constraints@, len as int, availg),
            slack as int == spec_slack(constraints@, len as int, availg),
            slack <= 0x1_0000_0000_0000_0000u128,
            grown == spec_grown_widths(constraints@, len as int, availg, flex),
            forall|j: int|
                0 <= j < grown.len() ==> 0 <= #[trigger] grown[j] <= 0x3_0000_0000_0000_0000_0000,
            i <= n,
            res@.len() == i,
            acc as int == sum_int(grown.take(i as int)),
            acc <= 0x3_0000_0000_0000_0000_0000_0000_0000u128,
            forall|j: int|
                0 <= j < i ==> #[trigger] res@[j] == spec_solve(
                    area,
                    axis,
                    constraints@,
                    flex,
                    spacing as int,
                )[j],
        decreases n - i,
    {
        proof {
            lemma_sum_bounded(grown.take(i as int), 0x3_0000_0000_0000_0000_0000);
            assert(grown.take(i as int).len() * 0x3_0000_0000_0000_0000_0000 <= 0xFFFF
                * 0x3_0000_0000_0000_0000_0000) by (nonlinear_arith)
                requires
                    grown.take(i as int).len() <= 0xFFFF,
            ;
            lemma_sum_nonneg(grown.take(i as int));
        }
        let extra: u128 = match flex {
            Flex::Start => 0,
            Flex::End => slack,
            Flex::Center => slack / 2,
            Flex::SpaceBetween => if n >= 2 {
                proof {
                    assert(slack * i <= 0x1_0000_0000_0000_0000 * 0xFFFF) by (nonlinear_arith)
                        requires
                            slack <= 0x1_0000_0000_0000_0000u128 && i <= 0xFFFF,
                    ;
                    lemma_mul_div_le(slack as int, i as int, n as int - 1);
                }
                slack * (i as u128) / ((n - 1) as u128)
            } else {
                0
            },
            Flex::SpaceAround => {
                proof {
                    assert(slack * (2 * i + 1) <= 0x1_0000_0000_0000_0000 * 0x2_0000)
                        by (nonlinear_arith)
                        requires
                            slack <= 0x1_0000_0000_0000_0000u128 && i <= 0xFFFF,
                    ;
                    lemma_mul_div_le(slack as int, 2 * i as int + 1, 2 * n as int);
                }
                slack * ((2 * (i as u128)) + 1) / (2 * (n as u128))
            },
            Flex::Legacy => 0,
        };
        proof {
            assert(extra as int == spec_extra_before(flex, slack as int, n as int, i as int));
            assert(extra <= 0x1_0000_0000_0000_0000u128);
        }
        let legacy: u128 = match flex {
            Flex::Legacy => {
                proof {
                    assert(slack * (i + 1) <= 0x1_0000_0000_0000_0000 * 0x1_0000)
                        by (nonlinear_arith)
                        requires
                            slack <= 0x1_0000_0000_0000_0000u128 && i + 1 <= 0x1_0000,
                    ;
                    assert(slack as int * (i as int) <= slack as int * (i as int + 1))
                        by (nonlinear_arith)
                        requires
                            slack >= 0,
                    ;
                    lemma_mul_div_le(slack as int, i as int + 1, n as int);
                    vstd::arithmetic::div_mod::lemma_div_is_ordered(
                        slack as int * (i as int),
                        slack as int * (i as int + 1),
                        n as int,
                    );
                }
                slack * ((i as u128) + 1) / (n as u128) - slack * (i as u128) / (n as u128)
            },
            _ => 0,
        };
        proof {
            assert(legacy as int == spec_legacy_add(flex, slack as int, n as int, i as int));
        }
        let gw: u128 = w[i] + legacy;
        proof {
            assert(gw as int == grown[i as int]);
        }
        proof {
            assert((i as int) * (spacing as int) <= 0xFFFF * 0xFFFF) by (nonlinear_arith)
                requires
                    i <= 0xFFFF && spacing <= 0xFFFF,
            ;
        }
        let sp_term: u128 = (i as u128) * (spacing as u128) * (FIX as u128);
        let start_fp: u128 = extra + acc + sp_term;
        let end_fp: u128 = start_fp + gw;
        proof {
            assert(start_fp as int == spec_start_fp(
                constraints@,
                len as int,
                spacing as int,
                flex,
                i as int,
            ));
            assert(end_fp as int == spec_end_fp(
                constraints@,
                len as int,
                spacing as int,
                flex,
                i as int,
            ));
        }
        let s_px: u16 = px_of(start_fp, len);
        let e_px: u16 = px_of(end_fp, len);
        proof {
            vstd::arithmetic::div_mod::lemma_div_is_ordered(
                start_fp as int + FIX / 2,
                end_fp as int + FIX / 2,
                FIX as int,
            );
            assert(s_px <= e_px);
        }
        let rect = match axis {
            Axis::Horizontal => {
                let xa: u32 = area.x as u32 + s_px as u32;
                let x: u16 = if xa > MAX_AREA as u32 {
                    MAX_AREA
                } else {
                    xa as u16
                };
                Rect { x, y: area.y, width: e_px - s_px, height: area.height }
            },
            Axis::Vertical => {
                let ya: u32 = area.y as u32 + s_px as u32;
                let y: u16 = if ya > MAX_AREA as u32 {
                    MAX_AREA
                } else {
                    ya as u16
                };
                Rect { x: area.x, y, width: area.width, height: e_px - s_px }
            },
        };
        proof {
            assert(rect == spec_segment_rect(
                area,
                axis,
                constraints@,
                spacing as int,
                flex,
                i as int,
            ));
            lemma_sum_take_succ(grown, i as int);
        }
        res.push(rect);
        acc = acc + gw;
        i = i + 1;
    }
    proof {
        assert(res@ =~= spec_solve(area, axis, constraints@, flex, spacing as int));
    }
    res
}

/// For non-negative `a` and `b <= c`, `a * b / c <= a`.
proof fn lemma_mul_div_le(a: int, b: int, c: int)
    requires
        a >= 0,
        0 <= b <= c,
        c >= 1,
    ensures
        0 <= (a * b) / c <= a,
{
    assert(0 <= (a * b) / c <= a) by (nonlinear_arith)
        requires
            a >= 0 && 0 <= b <= c && c >= 1,
    ;
}

/// Every base size is non-negative.
proof fn lemma_bases_nonneg(cs: Seq<Constraint>, len: int, i: int)
    requires
        0 <= i < cs.len(),
        len >= 0,
    ensures
        spec_bases(cs, len)[i] >= 0,
{
    match cs[i] {
        Constraint::Percentage(p) => {
            assert((p * len * FIX) / 100 >= 0) by (nonlinear_arith)
                requires
                    p >= 0 && len >= 0 && FIX > 0,
            ;
        },
        Constraint::Ratio(num, den) => {
            if den >= 1 {
                assert((num * len * FIX) / (den as int) >= 0) by (nonlinear_arith)
                    requires
                        num >= 0 && len >= 0 && FIX > 0 && den >= 1,
                ;
            }
        },
        _ => {},
    }
}

/// Every distributed width is non-negative.
proof fn lemma_filled_nonneg(cs: Seq<Constraint>, len: int, avail: int, i: int)
    requires
        0 <= i < cs.len(),
        len >= 0,
    ensures
        spec_widths_filled(cs, len, avail)[i] >= 0,
{
    lemma_bases_nonneg(cs, len, i);
    let ws = spec_weights(cs);
    let wtotal = sum_int(ws);
    let rem = spec_fill_rem(cs, len, avail);
    if wtotal > 0 {
        assert(forall|j: int| 0 <= j < ws.len() ==> #[trigger] ws[j] >= 0);
        lemma_sum_take_succ(ws, i);
        lemma_sum_nonneg(ws.take(i));
        assert(rem >= 0);
        assert(rem * sum_int(ws.take(i)) <= rem * sum_int(ws.take(i + 1))) by (nonlinear_arith)
            requires
                rem >= 0 && sum_int(ws.take(i)) <= sum_int(ws.take(i + 1)),
        ;
        vstd::arithmetic::div_mod::lemma_div_is_ordered(
            rem * sum_int(ws.take(i)),
            rem * sum_int(ws.take(i + 1)),
            wtotal,
        );
    }
}

/// A shrinking pass keeps widths non-negative, never grows one, and
/// keeps the excess non-negative.
proof fn lemma_shrink_pass_bounds(ws: Seq<int>, cs: Seq<Constraint>, k: int, i: int, excess: int)
    requires
        forall|j: int| 0 <= j < ws.len() ==> #[trigger] ws[j] >= 0,
        excess >= 0,
    ensures
        ({
            let r = spec_shrink_pass(ws, cs, k, i, excess);
            &&& r.0.len() == ws.len()
            &&& r.1 >= 0
            &&& forall|j: int| 0 <= j < ws.len() ==> 0 <= #[trigger] r.0[j] <= ws[j]
        }),
    decreases i + 1,
{
    if i < 0 || i >= ws.len() {
    } else {
        let d = if cs[i].spec_shrink_class() == k {
            min_int(ws[i], excess)
        } else {
            0
        };
        lemma_shrink_pass_bounds(ws.update(i, ws[i] - d), cs, k, i - 1, excess - d);
    }
}

/// The shrinking passes keep widths non-negative and never grow one.
proof fn lemma_shrink_from_bounds(ws: Seq<int>, cs: Seq<Constraint>, k: int, excess: int)
    requires
        forall|j: int| 0 <= j < ws.len() ==> #[trigger] ws[j] >= 0,
        excess >= 0,
    ensures
        spec_shrink_from(ws, cs, k, excess).len() == ws.len(),
        forall|j: int|
            0 <= j < ws.len() ==> 0 <= #[trigger] spec_shrink_from(ws, cs, k, excess)[j] <= ws[j],
    decreases 5 - k,
{
    if k >= 5 {
    } else {
        let r = spec_shrink_pass(ws, cs, k, ws.len() - 1, excess);
        lemma_shrink_pass_bounds(ws, cs, k, ws.len() - 1, excess);
        lemma_shrink_from_bounds(r.0, cs, k + 1, r.1);
    }
}

/// Every final width is non-negative.
proof fn lemma_final_nonneg(cs: Seq<Constraint>, len: int, avail: int, i: int)
    requires
        0 <= i < cs.len(),
        len >= 0,
    ensures
        spec_final_widths(cs, len, avail)[i] >= 0,
        spec_final_widths(cs, len, avail).len() == cs.len(),
{
    let ws = spec_widths_filled(cs, len, avail);
    assert forall|j: int| 0 <= j < ws.len() implies #[trigger] ws[j] >= 0 by {
        lemma_filled_nonneg(cs, len, avail, j);
    }
    let total = sum_int(ws);
    let excess = if total >= avail * FIX {
        total - avail * FIX
    } else {
        0
    };
    lemma_shrink_from_bounds(ws, cs, 0, excess);
}

/// Every grown width is non-negative.
proof fn lemma_grown_nonneg(cs: Seq<Constraint>, len: int, avail: int, flex: Flex, i: int)
    requires
        0 <= i < cs.len(),
        len >= 0,
        cs.len() >= 1,
    ensures
        spec_grown_widths(cs, len, avail, flex)[i] >= 0,
{
    lemma_final_nonneg(cs, len, avail, i);
    lemma_legacy_add_bounds(flex, spec_slack(cs, len, avail), cs.len() as int, i);
}

/// The flex lead-in gaps are non-negative and grow with the segment
/// index.
proof fn lemma_extra_mono(flex: Flex, slack: int, n: int, i: int, j: int)
    requires
        slack >= 0,
        n >= 1,
        0 <= i <= j < n,
    ensures
        0 <= spec_extra_before(flex, slack, n, i) <= spec_extra_before(flex, slack, n, j),
        spec_extra_before(flex, slack, n, i) <= slack,
{
    match flex {
        Flex::SpaceBetween => {
            if n >= 2 {
                assert(slack * i <= slack * j) by (nonlinear_arith)
                    requires
                        slack >= 0 && i <= j,
                ;
                vstd::arithmetic::div_mod::lemma_div_is_ordered(slack * i, slack * j, n - 1);
                lemma_mul_div_le(slack, i, n - 1);
                lemma_mul_div_le(slack, j, n - 1);
            }
        },
        Flex::SpaceAround => {
            assert(slack * (2 * i + 1) <= slack * (2 * j + 1)) by (nonlinear_arith)
                requires
                    slack >= 0 && i <= j,
            ;
            vstd::arithmetic::div_mod::lemma_div_is_ordered(
                slack * (2 * i + 1),
                slack * (2 * j + 1),
                2 * n,
            );
            lemma_mul_div_le(slack, 2 * i + 1, 2 * n);
            lemma_mul_div_le(slack, 2 * j + 1, 2 * n);
        },
        _ => {},
    }
}

/// Segment boundaries in fixed-point form: every start is at or after 0,
/// every end at or after its start, and the next start at or after the
/// previous end.
proof fn lemma_fp_ordered(cs: Seq<Constraint>, len: int, spacing: int, flex: Flex, i: int)
    requires
        0 <= i < cs.len(),
        len >= 0,
        spacing >= 0,
    ensures
        0 <= spec_start_fp(cs, len, spacing, flex, i),
        spec_start_fp(cs, len, spacing, flex, i) <= spec_end_fp(cs, len, spacing, flex, i),
        i + 1 < cs.len() ==> spec_end_fp(cs, len, spacing, flex, i) <= spec_start_fp(
            cs,
            len,
            spacing,
            flex,
            i + 1,
        ),
{
    let n = cs.len() as int;
    let avail = spec_avail(len, spacing, n);
    let slack = spec_slack(cs, len, avail);
    let grown = spec_grown_widths(cs, len, avail, flex);
    assert forall|j: int| 0 <= j < grown.len() implies #[trigger] grown[j] >= 0 by {
        lemma_grown_nonneg(cs, len, avail, flex, j);
    }
    lemma_extra_mono(flex, slack, n, i, i);
    lemma_sum_nonneg(grown.take(i));
    assert(i * spacing * FIX >= 0) by (nonlinear_arith)
        requires
            i >= 0 && spacing >= 0 && FIX > 0,
    ;
    lemma_grown_nonneg(cs, len, avail, flex, i);
    if i + 1 < n {
        lemma_extra_mono(flex, slack, n, i, i + 1);
        lemma_sum_take_succ(grown, i);
        assert((i + 1) * spacing * FIX >= i * spacing * FIX) by (nonlinear_arith)
            requires
                i >= 0 && spacing >= 0 && FIX > 0,
        ;
    }
}

/// The solver's coverage guarantee: the returned rectangles take the
/// area's full cross-axis extent, lie inside the area, and are laid out
/// in order along the main axis without overlap, so the main-axis extent
/// splits exactly into lead-in slack, segments and gaps.
pub proof fn lemma_solve_coverage(
    area: Rect,
    axis: Axis,
    cs: Seq<Constraint>,
    flex: Flex,
    spacing: int,
)
    requires
        spacing >= 0,
        area.x + area.width <= MAX_AREA,
        area.y + area.height <= MAX_AREA,
    ensures
        ({
            let r = spec_solve(area, axis, cs, flex, spacing);
            let len = spec_main_len(area, axis);
            &&& r.len() == cs.len()
            &&& forall|i: int|
                0 <= i < r.len() ==> match axis {
                    Axis::Horizontal => (#[trigger] r[i]).y == area.y && r[i].height == area.height
                        && area.x <= r[i].x && r[i].x + r[i].width <= area.x + len,
                    Axis::Vertical => (#[trigger] r[i]).x == area.x && r[i].width == area.width
                        && area.y <= r[i].y && r[i].y + r[i].height <= area.y + len,
                }
            &&& forall|i: int, j: int|
                0 <= i < j < r.len() ==> match axis {
                    Axis::Horizontal => #[trigger] r[i].x + r[i].width <= #[trigger] r[j].x,
                    Axis::Vertical => r[i].y + r[i].height <= r[j].y,
                }
        }),
{
    let r = spec_solve(area, axis, cs, flex, spacing);
    let len = spec_main_len(area, axis);
    let n = cs.len() as int;
    assert forall|i: int| 0 <= i < n implies 0 <= #[trigger] spec_start_px(cs, len, spacing, flex, i)
        <= spec_end_px(cs, len, spacing, flex, i) <= len by {
        lemma_fp_ordered(cs, len, spacing, flex, i);
        vstd::arithmetic::div_mod::lemma_div_is_ordered(
            spec_start_fp(cs, len, spacing, flex, i) + FIX / 2,
            spec_end_fp(cs, len, spacing, flex, i) + FIX / 2,
            FIX as int,
        );
        assert((spec_start_fp(cs, len, spacing, flex, i) + FIX / 2) / (FIX as int) >= 0)
            by (nonlinear_arith)
            requires
                spec_start_fp(cs, len, spacing, flex, i) >= 0 && FIX > 0,
        ;
    }
    assert forall|i: int| 0 <= i < n && i + 1 < n implies #[trigger] spec_end_px(cs, len, spacing, flex, i)
        <= spec_start_px(cs, len, spacing, flex, i + 1) by {
        lemma_fp_ordered(cs, len, spacing, flex, i);
        vstd::arithmetic::div_mod::lemma_div_is_ordered(
            spec_end_fp(cs, len, spacing, flex, i) + FIX / 2,
            spec_start_fp(cs, len, spacing, flex, i + 1) + FIX / 2,
            FIX as int,
        );
    }
    assert forall|i: int, j: int| 0 <= i < j < n implies #[trigger] spec_end_px(cs, len, spacing, flex, i)
        <= #[trigger] spec_start_px(cs, len, spacing, flex, j) by {
        lemma_boundary_chain(cs, len, spacing, flex, i, j);
    }
}

/// The sum of the first `k` steps of a function telescopes to its
/// value at `k`.
proof fn lemma_telescope(f: spec_fn(int) -> int, k: int)
    requires
        k >= 0,
    ensures
        sum_int(Seq::new(k as nat, |j: int| f(j + 1) - f(j))) == f(k) - f(0),
    decreases k,
{
    if k == 0 {
        assert(Seq::new(0, |j: int| f(j + 1) - f(j)) =~= Seq::<int>::empty());
    } else {
        lemma_telescope(f, k - 1);
        let s = Seq::new(k as nat, |j: int| f(j + 1) - f(j));
        assert(s.take(k - 1) =~= Seq::new((k - 1) as nat, |j: int| f(j + 1) - f(j)));
        lemma_sum_take_succ(s, k - 1);
        assert(s.take(k) =~= s);
    }
}

/// The cell boundary a cover step starts from: the walk along the main
/// axis visits 0, then each segment's start and end, then `len`.
pub open spec fn spec_cover_boundary(
    cs: Seq<Constraint>,
    len: int,
    spacing: int,
    flex: Flex,
    j: int,
) -> int {
    let n = cs.len() as int;
    if j <= 0 {
        0
    } else if j >= 2 * n + 1 {
        len
    } else if j % 2 == 1 {
        spec_start_px(cs, len, spacing, flex, (j - 1) / 2)
    } else {
        spec_end_px(cs, len, spacing, flex, j / 2 - 1)
    }
}

/// The pieces the main axis splits into, in order: the lead-in slack,
/// then each segment's width followed by the gap after it (the last
/// gap being the trailing slack).
pub open spec fn spec_cover_steps(cs: Seq<Constraint>, len: int, spacing: int, flex: Flex) -> Seq<
    int,
> {
    Seq::new(
        (2 * cs.len() + 1) as nat,
        |j: int|
            spec_cover_boundary(cs, len, spacing, flex, j + 1) - spec_cover_boundary(
                cs,
                len,
                spacing,
                flex,
                j,
            ),
    )
}

/// The exact-coverage half of the solver's guarantee: the segment
/// widths and the gaps around them — the flex lead-in and the trailing
/// slack included — add up to the area's main-axis extent exactly, and
/// every piece is non-negative.
pub proof fn lemma_solve_exact_cover(
    cs: Seq<Constraint>,
    len: int,
    spacing: int,
    flex: Flex,
)
    requires
        spacing >= 0,
        len >= 0,
    ensures
        sum_int(spec_cover_steps(cs, len, spacing, flex)) == len,
        forall|j: int|
            0 <= j < spec_cover_steps(cs, len, spacing, flex).len()
                ==> #[trigger] spec_cover_steps(cs, len, spacing, flex)[j] >= 0,
{
    let n = cs.len() as int;
    let f = |j: int| spec_cover_boundary(cs, len, spacing, flex, j);
    lemma_telescope(f, 2 * n + 1);
    assert(spec_cover_steps(cs, len, spacing, flex) =~= Seq::new(
        (2 * n + 1) as nat,
        |j: int| f(j + 1) - f(j),
    ));
    assert(f(2 * n + 1) == len && f(0) == 0);
    assert forall|j: int| 0 <= j < 2 * n + 1 implies #[trigger] (f(j + 1) - f(j)) >= 0 by {
        if n == 0 {
            // the single step is the whole extent
        } else if j == 0 {
            lemma_fp_ordered(cs, len, spacing, flex, 0);
            assert((spec_start_fp(cs, len, spacing, flex, 0) + FIX / 2) / (FIX as int) >= 0)
                by (nonlinear_arith)
                requires
                    spec_start_fp(cs, len, spacing, flex, 0) >= 0 && FIX > 0,
            ;
        } else if j == 2 * n {
            // the trailing slack: every end is clamped at len
        } else if j % 2 == 1 {
            // a segment: its end is at or after its start
            let i = (j - 1) / 2;
            lemma_fp_ordered(cs, len, spacing, flex, i);
            vstd::arithmetic::div_mod::lemma_div_is_ordered(
                spec_start_fp(cs, len, spacing, flex, i) + FIX / 2,
                spec_end_fp(cs, len, spacing, flex, i) + FIX / 2,
                FIX as int,
            );
        } else {
            // a gap: the next segment starts at or after this end
            let i = j / 2 - 1;
            lemma_fp_ordered(cs, len, spacing, flex, i);
            vstd::arithmetic::div_mod::lemma_div_is_ordered(
                spec_end_fp(cs, len, spacing, flex, i) + FIX / 2,
                spec_start_fp(cs, len, spacing, flex, i + 1) + FIX / 2,
                FIX as int,
            );
        }
    }
}

/// Boundaries are ordered across any pair of segments.
proof fn lemma_boundary_chain(cs: Seq<Constraint>, len: int, spacing: int, flex: Flex, i: int, j: int)
    requires
        spacing >= 0,
        len >= 0,
        0 <= i < j < cs.len(),
    ensures
        spec_end_px(cs, len, spacing, flex, i) <= spec_start_px(cs, len, spacing, flex, j),
    decreases j - i,
{
    lemma_fp_ordered(cs, len, spacing, flex, i);
    if i + 1 == j {
        vstd::arithmetic::div_mod::lemma_div_is_ordered(
            spec_end_fp(cs, len, spacing, flex, i) + FIX / 2,
            spec_start_fp(cs, len, spacing, flex, j) + FIX / 2,
            FIX as int,
        );
    } else {
        lemma_boundary_chain(cs, len, spacing, flex, i, j - 1);
        lemma_fp_ordered(cs, len, spacing, flex, j - 1);
        vstd::arithmetic::div_mod::lemma_div_is_ordered(
            spec_start_fp(cs, len, spacing, flex, j - 1) + FIX / 2,
            spec_end_fp(cs, len, spacing, flex, j - 1) + FIX / 2,
            FIX as int,
        );
        vstd::arithmetic::div_mod::lemma_div_is_ordered(
            spec_end_fp(cs, len, spacing, flex, j - 1) + FIX / 2,
            spec_start_fp(cs, len, spacing, flex, j) + FIX / 2,
            FIX as int,
        );
    }
}

/// The solver is deterministic: its result is a function of its
/// arguments alone, so two calls on equal inputs yield equal outputs.
pub proof fn lemma_solve_deterministic(
    area: Rect,
    axis: Axis,
    cs1: Seq<Constraint>,
    cs2: Seq<Constraint>,
    flex: Flex,
    spacing: int,
)
    requires
        cs1 == cs2,
    ensures
        spec_solve(area, axis, cs1, flex, spacing) == spec_solve(area, axis, cs2, flex, spacing),
{
}

/// A reusable description of a split: the axis, the constraints, the
/// flex mode and the inter-segment spacing.
#[derive(Debug, Clone, PartialEq, Eq)]
pub struct Layout {
    /// The axis along which the area is partitioned.
    pub direction: Axis,
    /// The sizing policy of each segment, in order.
    pub constraints: Vec<Constraint>,
    /// What happens to leftover space.
    pub flex: Flex,
    /// The number of cells between adjacent segments.
    pub spacing: u16,
}

impl Layout {
    /// A horizontal split with the given constraints.
    pub fn horizontal(constraints: Vec<Constraint>) -> (r: Layout)
        ensures
            r.direction == Axis::Horizontal,
            r.constraints == constraints,
            r.flex == Flex::Start,
            r.spacing == 0u16,
    {
        Layout { direction: Axis::Horizontal, constraints, flex: Flex::Start, spacing: 0 }
    }

    /// A vertical split with the given constraints.
    pub fn vertical(constraints: Vec<Constraint>) -> (r: Layout)
        ensures
            r.direction == Axis::Vertical,
            r.constraints == constraints,
            r.flex == Flex::Start,
            r.spacing == 0u16,
    {
        Layout { direction: Axis::Vertical, constraints, flex: Flex::Start, spacing: 0 }
    }

    /// Set the inter-segment spacing.
    pub fn spacing(self, spacing: u16) -> (r: Layout)
        ensures
            r == (Layout { spacing, ..self }),
    {
        Layout { spacing, ..self }
    }

    /// Set the flex mode.
    pub fn flex(self, flex: Flex) -> (r: Layout)
        ensures
            r == (Layout { flex, ..self }),
    {
        Layout { flex, ..self }
    }

    /// Partition `area` according to this layout.
    pub fn split(&self, area: Rect) -> (r: Vec<Rect>)
        requires
            all_valid(self.constraints@),
            self.constraints@.len() <= 0xFFFF,
        ensures
            r@ == spec_solve(area, self.direction, self.constraints@, self.flex, self.spacing as int),
            r@.len() == self.constraints@.len(),
    {
        solve(area, self.direction, &self.constraints, self.flex, self.spacing)
    }
}

impl Rect {
    /// Split this rectangle according to the given layout.
    pub fn split(self, layout: &Layout) -> (r: Vec<Rect>)
        requires
            all_valid(layout.constraints@),
            layout.constraints@.len() <= 0xFFFF,
        ensures
            r@ == spec_solve(
                self,
                layout.direction,
                layout.constraints@,
                layout.flex,
                layout.spacing as int,
            ),
            r@.len() == layout.constraints@.len(),
    {
        layout.split(self)
    }
}

/// The stretch share of one segment never exceeds the whole slack, and
/// is never negative.
proof fn lemma_legacy_add_bounds(flex: Flex, slack: int, n: int, i: int)
    requires
        slack >= 0,
        n >= 1,
        0 <= i < n,
    ensures
        0 <= spec_legacy_add(flex, slack, n, i) <= slack,
{
    if flex is Legacy {
        assert(slack * i <= slack * (i + 1)) by (nonlinear_arith)
            requires
                slack >= 0,
        ;
        vstd::arithmetic::div_mod::lemma_div_is_ordered(slack * i, slack * (i + 1), n);
        lemma_mul_div_le(slack, i + 1, n);
        assert((slack * i) / n >= 0) by (nonlinear_arith)
            requires
                slack >= 0 && i >= 0 && n >= 1,
        ;
    }
}

} // verus!
