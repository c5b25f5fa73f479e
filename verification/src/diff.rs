//! The diff engine: the minimal ordered patch list that brings one
//! buffer in sync with another.
use vstd::prelude::*;

use crate::buffer::{
    lemma_index_bounds, lemma_pos_bounds, spec_cell_count, spec_col, spec_in_area, spec_index,
    spec_set, Buffer,
};
use crate::cell::{spec_cell_wide, spec_default_cell, spec_masked_cell, Cell};
use crate::position::Position;
use crate::rect::Rect;

verus! {

/// One minimal instruction to the terminal backend: the cell at
/// `position` must become `cell`.
#[derive(Debug, Clone, Copy, PartialEq, Eq, Structural)]
pub struct PatchEntry {
    /// The grid position to update.
    pub position: Position,
    /// The cell to show there.
    pub cell: Cell,
}

/// Whether the diff must target index `i`: the new cell is not masked by
/// a wide glyph, and it differs from the old cell in content, style or
/// mask status.
pub open spec fn spec_changed(prev: Seq<Cell>, cur: Seq<Cell>, i: int) -> bool {
    !cur[i].skip && cur[i] != prev[i]
}

/// The grid position of row-major index `i`.
pub open spec fn spec_pos_at(area: Rect, i: int) -> Position {
    Position {
        x: (area.x + i % (area.width as int)) as u16,
        y: (area.y + i / (area.width as int)) as u16,
    }
}

/// The patch entries for the cells at index `i` and beyond, in row-major
/// order.
pub open spec fn spec_diff_from(prev: Seq<Cell>, cur: Seq<Cell>, area: Rect, i: int) -> Seq<
    PatchEntry,
>
    decreases cur.len() - i,
{
    if i < 0 || i >= cur.len() {
        Seq::empty()
    } else {
        let rest = spec_diff_from(prev, cur, area, i + 1);
        if spec_changed(prev, cur, i) {
            seq![PatchEntry { position: spec_pos_at(area, i), cell: cur[i] }] + rest
        } else {
            rest
        }
    }
}

/// The whole patch list bringing `prev` in sync with `cur`.
pub open spec fn spec_diff(prev: Seq<Cell>, cur: Seq<Cell>, area: Rect) -> Seq<PatchEntry> {
    spec_diff_from(prev, cur, area, 0)
}

/// The result of applying a patch list in order, each entry written with
/// the wide-glyph discipline of [`spec_set`].
pub open spec fn spec_apply(cells: Seq<Cell>, area: Rect, patches: Seq<PatchEntry>) -> Seq<Cell>
    decreases patches.len(),
{
    if patches.len() == 0 {
        cells
    } else {
        spec_apply(
            spec_set(
                cells,
                area,
                patches[0].position.x as int,
                patches[0].position.y as int,
                patches[0].cell,
            ),
            area,
            patches.drop_first(),
        )
    }
}

/// The wide-glyph discipline a rendered buffer obeys: a cell is
/// skip-marked exactly when the cell to its left holds a wide glyph;
/// skip-marked cells are blank; and a wide glyph never stands in the
/// last column.
pub open spec fn spec_grid_wf(cells: Seq<Cell>, area: Rect) -> bool {
    &&& cells.len() == spec_cell_count(area)
    &&& forall|i: int|
        0 <= i < cells.len() ==> ((#[trigger] cells[i]).skip <==> (spec_col(area, i) >= 1
            && spec_cell_wide(cells[i - 1])))
    &&& forall|i: int| 0 <= i < cells.len() && (#[trigger] cells[i]).skip ==> cells[i] == spec_masked_cell()
    &&& forall|i: int|
        0 <= i < cells.len() && spec_cell_wide(#[trigger] cells[i]) ==> spec_col(area, i)
            < area.width - 1
}

/// Compute the patch list that brings `prev` in sync with `cur`.
///
/// The two buffers must address the same region. Entries come out in
/// row-major, column-ascending order; cells masked by a wide glyph in
/// `cur` are never targeted.
pub fn diff(prev: &Buffer, cur: &Buffer) -> (r: Vec<PatchEntry>)
    requires
        prev.well_formed(),
        cur.well_formed(),
        prev.area == cur.area,
        cur.area.x + cur.area.width <= 0x1_0000,
        cur.area.y + cur.area.height <= 0x1_0000,
    ensures
        r@ == spec_diff(prev.content@, cur.content@, cur.area),
{
    let mut r: Vec<PatchEntry> = Vec::new();
    let area = cur.area;
    let n = cur.content.len();
    let mut i: usize = 0;
    while i < n
        invariant
            prev.well_formed(),
            cur.well_formed(),
            prev.area == area,
            cur.area == area,
            area.x + area.width <= 0x1_0000,
            area.y + area.height <= 0x1_0000,
            n == cur.content@.len(),
            i <= n,
            r@ + spec_diff_from(prev.content@, cur.content@, area, i as int) == spec_diff(
                prev.content@,
                cur.content@,
                area,
            ),
        decreases n - i,
    {
        proof {
            assert(area.width > 0) by {
                assert(spec_cell_count(area) > 0);
                if area.width == 0 {
                    assert(area.width * area.height == 0) by (nonlinear_arith)
                        requires
                            area.width == 0,
                    ;
                }
            }
            lemma_pos_bounds(area, i as int);
        }
        let c = cur.content[i];
        let p = prev.content[i];
        if !c.skip && !(c == p) {
            let x: u16 = area.x + (i % (area.width as usize)) as u16;
            let y: u16 = area.y + (i / (area.width as usize)) as u16;
            let ghost rprev = r@;
            r.push(PatchEntry { position: Position { x, y }, cell: c });
            proof {
                assert(r@ =~= rprev + seq![
                    PatchEntry {
                        position: spec_pos_at(area, i as int),
                        cell: cur.content@[i as int],
                    },
                ]);
                assert(r@ + spec_diff_from(prev.content@, cur.content@, area, i as int + 1) =~= rprev
                    + spec_diff_from(prev.content@, cur.content@, area, i as int));
            }
        }
        i = i + 1;
    }
    proof {
        assert(r@ =~= r@ + spec_diff_from(prev.content@, cur.content@, area, n as int));
    }
    r
}

/// Apply a patch list in order, writing each entry with the wide-glyph
/// discipline of [`Buffer::set`].
pub fn apply_patches(buf: &mut Buffer, patches: &Vec<PatchEntry>)
    requires
        old(buf).well_formed(),
    ensures
        final(buf).area == old(buf).area,
        final(buf).well_formed(),
        final(buf).content@ == spec_apply(old(buf).content@, old(buf).area, patches@),
{
    let ghost area = buf.area;
    let n = patches.len();
    let mut k: usize = 0;
    proof {
        assert(patches@.skip(0) =~= patches@);
    }
    while k < n
        invariant
            buf.area == area,
            buf.well_formed(),
            n == patches@.len(),
            k <= n,
            spec_apply(buf.content@, area, patches@.skip(k as int)) == spec_apply(
                old(buf).content@,
                area,
                patches@,
            ),
        decreases n - k,
    {
        let entry = patches[k];
        proof {
            assert(patches@.skip(k as int).len() > 0);
            assert(patches@.skip(k as int)[0] == entry);
            assert(patches@.skip(k as int).drop_first() =~= patches@.skip(k as int + 1));
        }
        buf.set(entry.position.x, entry.position.y, entry.cell);
        k = k + 1;
    }
    proof {
        assert(patches@.skip(n as int) =~= Seq::<PatchEntry>::empty());
    }
}

/// Stepping one column to the right stays in the same row.
proof fn lemma_col_succ(area: Rect, j: int)
    requires
        area.width > 0,
        0 <= j < spec_cell_count(area),
        spec_col(area, j) < area.width - 1,
    ensures
        j + 1 < spec_cell_count(area),
        spec_col(area, j + 1) == spec_col(area, j) + 1,
{
    let w = area.width as int;
    let h = area.height as int;
    assert(j % w < w - 1 ==> (j + 1 < w * h && (j + 1) % w == j % w + 1)) by (nonlinear_arith)
        requires
            w > 0 && h >= 0 && 0 <= j < w * h,
    ;
}

/// Column zero is never skip-marked, and every index has a column.
proof fn lemma_col_base(area: Rect, j: int)
    requires
        area.width > 0,
        0 <= j < spec_cell_count(area),
    ensures
        0 <= spec_col(area, j) < area.width,
        spec_col(area, j) >= 1 ==> j >= 1,
        spec_col(area, j) >= 1 ==> spec_col(area, j - 1) == spec_col(area, j) - 1,
{
    let w = area.width as int;
    assert(0 <= j % w < w && (j % w >= 1 ==> (j >= 1 && (j - 1) % w == j % w - 1)))
        by (nonlinear_arith)
        requires
            w > 0 && j >= 0,
    ;
}

/// In a well-formed grid, a wide glyph is followed by its masked
/// companion.
proof fn lemma_wide_companion(q: Seq<Cell>, area: Rect, j: int)
    requires
        spec_grid_wf(q, area),
        0 <= j < q.len(),
        spec_cell_wide(q[j]),
        area.width > 0,
    ensures
        j + 1 < q.len(),
        q[j + 1] == spec_masked_cell(),
        q[j + 1].skip,
        spec_col(area, j + 1) == spec_col(area, j) + 1,
    decreases 0int,
{
    lemma_col_succ(area, j);
    assert(q[j + 1].skip);
}

/// In a well-formed grid, a skip-marked cell sits right of a wide
/// glyph.
proof fn lemma_skip_left(q: Seq<Cell>, area: Rect, j: int)
    requires
        spec_grid_wf(q, area),
        0 <= j < q.len(),
        q[j].skip,
        area.width > 0,
    ensures
        j >= 1,
        spec_cell_wide(q[j - 1]),
        q[j] == spec_masked_cell(),
{
    lemma_col_base(area, j);
}

/// The inductive heart of the round-trip law: a state that agrees with
/// `cur` up to `k` and with `prev` beyond (up to cleared cells the
/// remaining patches repaint) reaches `cur` once the remaining patches
/// are applied.
#[verifier::rlimit(60)]
proof fn lemma_apply_from(state: Seq<Cell>, prev: Seq<Cell>, cur: Seq<Cell>, area: Rect, k: int)
    requires
        area.x + area.width <= 0x1_0000,
        area.y + area.height <= 0x1_0000,
        spec_grid_wf(prev, area),
        spec_grid_wf(cur, area),
        state.len() == cur.len(),
        0 <= k <= cur.len(),
        forall|i: int| 0 <= i < k ==> #[trigger] state[i] == cur[i],
        k < cur.len() ==> (state[k] == cur[k] || (state[k] == prev[k] && (k == 0
            || !spec_cell_wide(cur[k - 1]) || cur[k - 1] == prev[k - 1])) || (state[k]
            == spec_default_cell() && spec_changed(prev, cur, k))),
        forall|i: int|
            k < i < cur.len() ==> ((#[trigger] state[i]) == prev[i] || (state[i]
                == spec_default_cell() && spec_changed(prev, cur, i))),
    ensures
        spec_apply(state, area, spec_diff_from(prev, cur, area, k)) == cur,
    decreases cur.len() - k,
{
    if k >= cur.len() {
        assert(spec_diff_from(prev, cur, area, k) =~= Seq::<PatchEntry>::empty());
        assert(state =~= cur);
    } else {
        assert(area.width > 0) by {
            if area.width == 0 {
                assert(area.width * area.height == 0) by (nonlinear_arith)
                    requires
                        area.width == 0,
                ;
            }
        }
        lemma_pos_bounds(area, k);
        lemma_col_base(area, k);
        let pos = spec_pos_at(area, k);
        let x = pos.x as int;
        let y = pos.y as int;
        assert(x == area.x + spec_col(area, k));
        assert(y == area.y + k / (area.width as int));
        assert(spec_in_area(area, x, y));
        assert(spec_index(area, x, y) == k);
        let rest = spec_diff_from(prev, cur, area, k + 1);
        if spec_changed(prev, cur, k) {
            let entry = PatchEntry { position: pos, cell: cur[k] };
            let dd = spec_diff_from(prev, cur, area, k);
            assert(dd == seq![entry] + rest);
            assert(dd.len() == 1 + rest.len());
            assert(dd[0] == entry);
            assert(dd.drop_first() =~= rest);
            let ns = spec_set(state, area, x, y, cur[k]);
            assert(spec_apply(state, area, dd) == spec_apply(ns, area, rest));
            // what does the write do?
            if spec_cell_wide(cur[k]) {
                // cur is well-formed, so the glyph is not in the last
                // column and its companion in cur is masked
                lemma_wide_companion(cur, area, k);
                assert(x + 1 < area.x + area.width);
                let c1 = state.update(k, cur[k]).update(k + 1, spec_masked_cell());
                if k + 2 < state.len() && x + 2 < area.x + area.width && spec_cell_wide(
                    state[k + 1],
                ) {
                    // the old neighbor held a wide glyph of its own:
                    // its stale companion is cleared and repainted by a
                    // later patch
                    assert(state[k + 1] == prev[k + 1]);
                    assert(spec_cell_wide(prev[k + 1]));
                    lemma_wide_companion(prev, area, k + 1);
                    assert(prev[k + 2].skip);
                    assert(!cur[k + 2].skip) by {
                        if cur[k + 2].skip {
                            lemma_skip_left(cur, area, k + 2);
                        }
                    }
                    assert(spec_changed(prev, cur, k + 2));
                    let ns2 = c1.update(k + 2, spec_default_cell());
                    assert(ns == ns2);
                    lemma_apply_from(ns2, prev, cur, area, k + 1);
                } else {
                    assert(ns == c1);
                    lemma_apply_from(c1, prev, cur, area, k + 1);
                }
            } else {
                let c1 = state.update(k, cur[k]);
                if k + 1 < state.len() && x + 1 < area.x + area.width && spec_cell_wide(state[k]) {
                    // a wide glyph is overwritten by a narrow cell: its
                    // stale companion is cleared, and a later patch
                    // repaints it
                    assert(state[k] == prev[k]);
                    lemma_wide_companion(prev, area, k);
                    assert(!cur[k + 1].skip) by {
                        if cur[k + 1].skip {
                            lemma_skip_left(cur, area, k + 1);
                        }
                    }
                    assert(spec_changed(prev, cur, k + 1));
                    let ns2 = c1.update(k + 1, spec_default_cell());
                    assert(ns == ns2);
                    lemma_apply_from(ns2, prev, cur, area, k + 1);
                } else {
                    assert(ns == c1);
                    lemma_apply_from(c1, prev, cur, area, k + 1);
                }
            }
        } else {
            assert(spec_diff_from(prev, cur, area, k) == rest);
            // no patch targets k, and the state already agrees there
            if cur[k].skip {
                lemma_skip_left(cur, area, k);
                assert(state[k] == cur[k]) by {
                    if state[k] != cur[k] {
                        // only the prev option of the entry invariant is
                        // left, whose guard leaves cur[k-1] == prev[k-1];
                        // prev's companion is then masked too
                        assert(state[k] == prev[k] && (k == 0 || !spec_cell_wide(cur[k - 1])
                            || cur[k - 1] == prev[k - 1]));
                        assert(cur[k - 1] == prev[k - 1]);
                        lemma_wide_companion(prev, area, k);
                    }
                }
            } else {
                assert(cur[k] == prev[k]);
                assert(state[k] == cur[k]);
            }
            lemma_apply_from(state, prev, cur, area, k + 1);
        }
    }
}

/// The diff round-trip law: for buffers `prev` and `cur` over the same
/// area that obey the wide-glyph discipline, applying `diff(prev, cur)`
/// onto `prev` yields a grid cell-wise equal to `cur`.
///
/// Every buffer the library produces obeys the discipline: a blank
/// buffer does ([`lemma_empty_grid_wf`]), and the write operations
/// promise to keep it (the `spec_grid_wf` clauses on [`Buffer::set`],
/// [`Buffer::set_style`], [`Buffer::set_stringn`], the text renderers
/// and [`Buffer::with_lines`]). A buffer assembled by hand with a
/// skip-marked cell that hides no glyph falls outside the discipline,
/// and for such a target no patch list can repaint the hidden cell.
pub proof fn lemma_diff_round_trip(prev: Seq<Cell>, cur: Seq<Cell>, area: Rect)
    requires
        area.x + area.width <= 0x1_0000,
        area.y + area.height <= 0x1_0000,
        spec_grid_wf(prev, area),
        spec_grid_wf(cur, area),
    ensures
        spec_apply(prev, area, spec_diff(prev, cur, area)) == cur,
{
    lemma_apply_from(prev, prev, cur, area, 0);
}

/// Diffing a buffer against itself yields no patch at all.
pub proof fn lemma_diff_idempotent(cells: Seq<Cell>, area: Rect, i: int)
    ensures
        spec_diff_from(cells, cells, area, i) == Seq::<PatchEntry>::empty(),
    decreases cells.len() - i,
{
    if 0 <= i < cells.len() {
        lemma_diff_idempotent(cells, area, i + 1);
    }
}

/// An all-blank grid obeys the wide-glyph discipline.
pub proof fn lemma_empty_grid_wf(cells: Seq<Cell>, area: Rect)
    requires
        cells.len() == spec_cell_count(area),
        forall|i: int| 0 <= i < cells.len() ==> #[trigger] cells[i] == spec_default_cell(),
    ensures
        spec_grid_wf(cells, area),
{
    assert forall|i: int| 0 <= i < cells.len() implies ((#[trigger] cells[i]).skip <==> (spec_col(
        area,
        i,
    ) >= 1 && spec_cell_wide(cells[i - 1]))) by {
        assert(area.width > 0) by {
            if area.width == 0 {
                assert(area.width * area.height == 0) by (nonlinear_arith)
                    requires
                        area.width == 0,
                ;
            }
        }
        lemma_col_base(area, i);
        if i >= 1 {
            assert(cells[i - 1] == spec_default_cell());
        }
    }
}

/// A single-cell write of an unmasked cell preserves the wide-glyph
/// discipline: the write masks its own companion, clears stale
/// companions, and clears a wide glyph whose hidden half it overwrites.
pub proof fn lemma_set_preserves_grid_wf(cells: Seq<Cell>, area: Rect, x: int, y: int, cell: Cell)
    requires
        spec_grid_wf(cells, area),
        !cell.skip,
    ensures
        spec_grid_wf(spec_set(cells, area, x, y, cell), area),
{
    if !spec_in_area(area, x, y) {
    } else {
        assert(area.width > 0) by {
            if area.width == 0 {
                assert(area.width * area.height == 0) by (nonlinear_arith)
                    requires
                        area.width == 0,
                ;
            }
        }
        lemma_index_bounds(area, x, y);
        let i = spec_index(area, x, y);
        let ns = spec_set(cells, area, x, y, cell);
        lemma_col_base(area, i);
        // when the target is the hidden half of a glyph, that glyph is
        // cleared; otherwise the left neighbor is not wide and nothing
        // happens there
        if cells[i].skip {
            lemma_skip_left(cells, area, i);
        }
        if i - 1 >= 0 && x - 1 >= area.x && spec_cell_wide(cells[i - 1]) {
            lemma_wide_companion(cells, area, i - 1);
            lemma_col_base(area, i - 1);
        }
        if spec_cell_wide(cell) {
            if x + 1 >= area.x + area.width {
            } else {
                lemma_col_succ(area, i);
                if i + 2 < cells.len() && x + 2 < area.x + area.width && spec_cell_wide(
                    cells[i + 1],
                ) {
                    lemma_wide_companion(cells, area, i + 1);
                    lemma_col_succ(area, i + 1);
                    if i + 3 < cells.len() {
                        lemma_col_base(area, i + 3);
                    }
                    assert forall|j: int| 0 <= j < ns.len() implies ((#[trigger] ns[j]).skip <==> (
                    spec_col(area, j) >= 1 && spec_cell_wide(ns[j - 1]))) by {
                        lemma_col_base(area, j);
                    }
                } else {
                    if i + 2 < cells.len() {
                        lemma_col_base(area, i + 2);
                    }
                    assert forall|j: int| 0 <= j < ns.len() implies ((#[trigger] ns[j]).skip <==> (
                    spec_col(area, j) >= 1 && spec_cell_wide(ns[j - 1]))) by {
                        lemma_col_base(area, j);
                        if spec_col(area, j) >= 1 && j - 1 == i + 1 {
                            // the masked companion is not wide, and the
                            // old neighbor was not either
                            assert(!spec_cell_wide(ns[i + 1]));
                        }
                    }
                }
            }
        } else {
            if i + 1 < cells.len() && x + 1 < area.x + area.width && spec_cell_wide(cells[i]) {
                lemma_wide_companion(cells, area, i);
                lemma_col_succ(area, i);
                if i + 2 < cells.len() {
                    lemma_col_base(area, i + 2);
                }
                assert forall|j: int| 0 <= j < ns.len() implies ((#[trigger] ns[j]).skip <==> (
                spec_col(area, j) >= 1 && spec_cell_wide(ns[j - 1]))) by {
                    lemma_col_base(area, j);
                }
            } else {
                if i + 1 < cells.len() {
                    lemma_col_base(area, i + 1);
                }
                assert forall|j: int| 0 <= j < ns.len() implies ((#[trigger] ns[j]).skip <==> (
                spec_col(area, j) >= 1 && spec_cell_wide(ns[j - 1]))) by {
                    lemma_col_base(area, j);
                    if spec_col(area, j) >= 1 && j - 1 == i {
                        assert(!spec_cell_wide(cells[i])) by {
                            if spec_cell_wide(cells[i]) {
                                lemma_wide_companion(cells, area, i);
                            }
                        }
                    }
                }
            }
        }
    }
}

/// Styling a region preserves the wide-glyph discipline: masks,
/// symbols and the masked cells themselves are untouched.
pub proof fn lemma_set_style_preserves_grid_wf(
    cells: Seq<Cell>,
    area: Rect,
    region: Rect,
    style: crate::style::Style,
)
    requires
        spec_grid_wf(cells, area),
    ensures
        spec_grid_wf(crate::buffer::spec_set_style(cells, area, region, style), area),
{
    let ns = crate::buffer::spec_set_style(cells, area, region, style);
    assert forall|j: int| 0 <= j < ns.len() implies ((#[trigger] ns[j]).skip == cells[j].skip
        && ns[j].symbol == cells[j].symbol && (cells[j].skip ==> ns[j] == cells[j])) by {}
    assert forall|j: int| 0 <= j < ns.len() implies ((#[trigger] ns[j]).skip <==> (spec_col(
        area,
        j,
    ) >= 1 && spec_cell_wide(ns[j - 1]))) by {
        if j >= 1 {
            assert(spec_cell_wide(ns[j - 1]) == spec_cell_wide(cells[j - 1]));
        }
    }
}

/// Writing a run of characters preserves the wide-glyph discipline:
/// every written cell is unmasked, and each single write preserves it.
pub proof fn lemma_set_string_preserves_grid_wf(
    cells: Seq<Cell>,
    area: Rect,
    x: int,
    y: int,
    s: Seq<char>,
    budget: int,
    style: crate::style::Style,
)
    requires
        spec_grid_wf(cells, area),
    ensures
        spec_grid_wf(crate::buffer::spec_set_string(cells, area, x, y, s, budget, style), area),
    decreases s.len(),
{
    if s.len() == 0 {
    } else {
        let w = crate::text::spec_eff_width(s[0]);
        if w == 0 {
            lemma_set_string_preserves_grid_wf(cells, area, x, y, s.drop_first(), budget, style);
        } else if w > budget || x + w > 0xFFFF {
        } else {
            let written = crate::cell::spec_styled_cell(
                Cell { symbol: s[0], ..crate::cell::spec_default_cell() },
                style,
            );
            lemma_set_preserves_grid_wf(cells, area, x, y, written);
            lemma_set_string_preserves_grid_wf(
                spec_set(cells, area, x, y, written),
                area,
                x + w,
                y,
                s.drop_first(),
                budget - w,
                style,
            );
        }
    }
}

/// Rendering a run of spans preserves the wide-glyph discipline.
pub proof fn lemma_render_spans_preserves_grid_wf(
    cells: Seq<Cell>,
    area: Rect,
    x: int,
    y: int,
    spans: Seq<crate::text::Span>,
    budget: int,
)
    requires
        spec_grid_wf(cells, area),
    ensures
        spec_grid_wf(crate::text::spec_render_spans(cells, area, x, y, spans, budget), area),
    decreases spans.len(),
{
    if spans.len() > 0 {
        let w = crate::text::spec_str_width(spans[0].content@);
        lemma_set_string_preserves_grid_wf(
            cells,
            area,
            x,
            y,
            spans[0].content@,
            budget,
            spans[0].style,
        );
        lemma_render_spans_preserves_grid_wf(
            crate::buffer::spec_set_string(cells, area, x, y, spans[0].content@, budget, spans[0].style),
            area,
            x + w,
            y,
            spans.drop_first(),
            budget - w,
        );
    }
}

/// Rendering a block of text preserves the wide-glyph discipline.
pub proof fn lemma_render_text_preserves_grid_wf(
    cells: Seq<Cell>,
    area: Rect,
    text_align: Option<crate::text::Alignment>,
    la: Rect,
    lines: Seq<crate::text::Line>,
    i: int,
)
    requires
        spec_grid_wf(cells, area),
    ensures
        spec_grid_wf(
            crate::text::spec_render_text_from(cells, area, text_align, la, lines, i),
            area,
        ),
    decreases lines.len() - i,
{
    if i < 0 || i >= lines.len() || i >= la.height {
    } else {
        let line = lines[i];
        let lw = crate::solver::sum_int(crate::text::spec_spans_widths(line.spans@));
        let tx_off: int = if line.alignment is None {
            match text_align {
                Some(crate::text::Alignment::Center) => if la.width >= lw {
                    (la.width - lw) / 2
                } else {
                    0
                },
                Some(crate::text::Alignment::Right) => if la.width >= lw {
                    la.width - lw
                } else {
                    0
                },
                _ => 0,
            }
        } else {
            0
        };
        let row = Rect {
            x: (la.x + tx_off) as u16,
            y: (la.y + i) as u16,
            width: (la.width - tx_off) as u16,
            height: 1,
        };
        let off = crate::text::spec_line_offset(line, row.width as int);
        lemma_render_spans_preserves_grid_wf(
            cells,
            area,
            row.x + off,
            row.y as int,
            line.spans@,
            row.width - off,
        );
        lemma_render_text_preserves_grid_wf(
            crate::text::spec_render_line(cells, area, line, row),
            area,
            text_align,
            la,
            lines,
            i + 1,
        );
    }
}

/// A range of cells in which nothing changed (or everything changed is
/// masked) contributes no patch.
proof fn lemma_diff_quiet_range(prev: Seq<Cell>, cur: Seq<Cell>, area: Rect, m: int, e: int)
    requires
        0 <= m <= e <= cur.len(),
        forall|j: int| m <= j < e ==> (#[trigger] cur[j]).skip || cur[j] == prev[j],
    ensures
        spec_diff_from(prev, cur, area, m) == spec_diff_from(prev, cur, area, e),
    decreases e - m,
{
    if m < e {
        lemma_diff_quiet_range(prev, cur, area, m + 1, e);
    }
}

/// The wide-glyph masking law: writing a two-column glyph at `(x, y)`
/// into an otherwise blank buffer and diffing against a blank buffer
/// yields exactly one patch, at `(x, y)` — none at the masked cell to
/// its right.
pub proof fn lemma_wide_glyph_masking(base: Seq<Cell>, area: Rect, x: int, y: int, cell: Cell)
    requires
        area.x + area.width <= 0x1_0000,
        area.y + area.height <= 0x1_0000,
        base.len() == spec_cell_count(area),
        forall|i: int| 0 <= i < base.len() ==> #[trigger] base[i] == spec_default_cell(),
        spec_in_area(area, x, y),
        x + 1 < area.x + area.width,
        spec_cell_wide(cell),
    ensures
        spec_diff(base, spec_set(base, area, x, y, cell), area) =~= seq![
            PatchEntry { position: Position { x: x as u16, y: y as u16 }, cell },
        ],
{
    assert(area.width > 0);
    lemma_index_bounds(area, x, y);
    let i = spec_index(area, x, y);
    lemma_col_succ(area, i);
    let cur = spec_set(base, area, x, y, cell);
    assert(!spec_cell_wide(base[i + 1]));
    assert(cur =~= base.update(i, cell).update(i + 1, spec_masked_cell()));
    // the glyph cell is the only changed, unmasked cell
    assert(cell != spec_default_cell());
    assert(spec_changed(base, cur, i));
    lemma_diff_quiet_range(base, cur, area, 0, i);
    lemma_diff_quiet_range(base, cur, area, i + 1, cur.len() as int);
    assert(spec_diff_from(base, cur, area, cur.len() as int) =~= Seq::<PatchEntry>::empty());
    let pos = spec_pos_at(area, i);
    assert(pos.x as int == area.x + spec_col(area, i));
    assert(pos == Position { x: x as u16, y: y as u16 });
    assert(spec_diff_from(base, cur, area, i) =~= seq![PatchEntry { position: pos, cell }]);
    assert(spec_diff(base, cur, area) =~= spec_diff_from(base, cur, area, i));
}

} // verus!
