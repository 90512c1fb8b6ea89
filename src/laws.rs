//! Properties of the handler operations, stated over the terminal's view.
use vstd::prelude::*;

use crate::cell::Cell;
use crate::grid::blank_row;
use crate::term::{
    clamp_count, cols_of, cursor_row, deleted_chars, input_view, inserted_blank, lines_of, linefeed_view,
    min_nat, resize_view, at_least_one, scroll_down_rel_view, scroll_up_rel_view, scrolled_up, swap_alt_view,
    cursor_inverted, term_wf, with_cursor, with_cursor_row, wrapped_view, Term, TermView,
};

verus! {

/// After every handler call: the active grid has `lines` rows of `cols`
/// cells, the cursor lies within `[0, lines] x [0, cols]`, the tab stops are
/// every eighth column but the first, and the scrolling region is a
/// non-empty range of lines of the screen.
pub proof fn lemma_invariants(t: &Term)
    requires
        t.inv(),
    ensures
        t@.grid.len() == lines_of(t@),
        forall|i: int| 0 <= i < lines_of(t@) ==> #[trigger] t@.grid[i].len() == cols_of(t@),
        t@.cursor.line.0 <= lines_of(t@),
        t@.cursor.col.0 <= cols_of(t@),
        t@.tabs.len() == cols_of(t@),
        t@.tabs[0] == false,
        forall|i: int| 0 < i < t@.tabs.len() ==> #[trigger] t@.tabs[i] == (i % 8 == 0),
        t@.region_start < t@.region_end <= lines_of(t@),
{
}

/// Switching screens twice from the primary screen gives back the primary
/// grid and cursor.
pub proof fn lemma_swap_alt_twice(v: TermView)
    requires
        term_wf(v),
        !v.alt,
    ensures
        swap_alt_view(swap_alt_view(v)).grid == v.grid,
        swap_alt_view(swap_alt_view(v)).cursor == v.cursor,
{
}

/// After a carriage return, writing `k` spaces (with `k` at most the width)
/// leaves the first `k` cells of the line equal to the template cell
/// holding a space.
pub proof fn lemma_carriage_return_then_spaces(v: TermView, states: Seq<TermView>, k: nat)
    requires
        term_wf(v),
        v.cursor.line.0 < lines_of(v),
        k <= cols_of(v),
        states.len() == k + 1,
        states[0] == with_cursor(v, v.cursor.line.0 as nat, 0),
        forall|i: int| 0 <= i < k ==> #[trigger] states[i + 1] == input_view(states[i], ' '),
    ensures
        forall|j: int|
            0 <= j < k ==> #[trigger] states[k as int].grid[v.cursor.line.0 as int][j] == (Cell {
                c: ' ',
                ..v.template
            }),
{
    lemma_spaces_prefix(v, states, k, k);
}

proof fn lemma_spaces_prefix(v: TermView, states: Seq<TermView>, k: nat, i: nat)
    requires
        term_wf(v),
        v.cursor.line.0 < lines_of(v),
        k <= cols_of(v),
        i <= k,
        states.len() == k + 1,
        states[0] == with_cursor(v, v.cursor.line.0 as nat, 0),
        forall|m: int| 0 <= m < k ==> #[trigger] states[m + 1] == input_view(states[m], ' '),
    ensures
        states[i as int].cursor.line == v.cursor.line,
        states[i as int].cursor.col.0 == i,
        states[i as int].template == v.template,
        states[i as int].grid.len() == v.grid.len(),
        forall|r: int| 0 <= r < v.grid.len() ==> #[trigger] states[i as int].grid[r].len() == cols_of(v),
        forall|j: int|
            0 <= j < i ==> #[trigger] states[i as int].grid[v.cursor.line.0 as int][j] == (Cell {
                c: ' ',
                ..v.template
            }),
    decreases i,
{
    if i == 0 {
        assert forall|r: int| 0 <= r < v.grid.len() implies #[trigger] states[0].grid[r].len() == cols_of(v) by {
            assert(v.grid[r].len() == v.grid[0].len());
        }
    } else {
        let p = (i - 1) as nat;
        lemma_spaces_prefix(v, states, k, p);
        let s = states[p as int];
        assert(s.grid[0].len() == cols_of(v));
        assert(wrapped_view(s) == s);
        assert(states[i as int] == input_view(states[p as int], ' '));
    }
}

/// Inserting `n` blank cells and then deleting `n` cells at the same cursor
/// keeps the line up to the last cells, which become empty cells; the other
/// lines do not change.
pub proof fn lemma_insert_blank_then_delete(v: TermView, n: nat)
    requires
        term_wf(v),
        v.cursor.line.0 < lines_of(v),
    ensures
        ({
            let k = clamp_count(v, n);
            let v1 = with_cursor_row(
                v,
                inserted_blank(cursor_row(v), v.cursor.col.0 as int, k as int, v.empty),
            );
            let v2 = with_cursor_row(
                v1,
                deleted_chars(cursor_row(v1), v1.cursor.col.0 as int, clamp_count(v1, n) as int, v1.empty),
            );
            &&& forall|j: int| 0 <= j < cols_of(v) - k ==> #[trigger] cursor_row(v2)[j] == cursor_row(v)[j]
            &&& forall|j: int| cols_of(v) - k <= j < cols_of(v) ==> #[trigger] cursor_row(v2)[j] == v.empty
            &&& forall|r: int| 0 <= r < lines_of(v) && r != v.cursor.line.0 ==> #[trigger] v2.grid[r] == v.grid[r]
        }),
{
    let l = v.cursor.line.0 as int;
    assert(v.grid[l].len() == cols_of(v));
    let k = clamp_count(v, n);
    let v1 = with_cursor_row(v, inserted_blank(cursor_row(v), v.cursor.col.0 as int, k as int, v.empty));
    if l == 0 {
        assert(cols_of(v1) == cols_of(v));
    } else {
        assert(v1.grid[0] == v.grid[0]);
    }
    assert(clamp_count(v1, n) == k);
}

/// Scrolling the region up by `n` and then down by `n` keeps the lines of
/// the region below its top `n`, blanks the top `n`, and keeps every line
/// outside the region.
pub proof fn lemma_scroll_up_then_down(v: TermView, n: nat)
    requires
        term_wf(v),
    ensures
        ({
            let s = v.region_start as int;
            let e = v.region_end as int;
            let k = min_nat(n, (v.region_end - v.region_start) as nat) as int;
            let v2 = scroll_down_rel_view(scroll_up_rel_view(v, v.region_start, n), v.region_start, n);
            &&& forall|i: int| s + k <= i < e ==> #[trigger] v2.grid[i] == v.grid[i]
            &&& forall|i: int| s <= i < s + k ==> #[trigger] v2.grid[i] == blank_row(cols_of(v), v.empty)
            &&& forall|i: int| 0 <= i < lines_of(v) && !(s <= i < e) ==> #[trigger] v2.grid[i] == v.grid[i]
        }),
{
    let v1 = scroll_up_rel_view(v, v.region_start, n);
    assert(v1.grid.len() == v.grid.len());
    assert forall|i: int| 0 <= i < v.grid.len() implies #[trigger] v1.grid[i].len() == cols_of(v) by {
        assert(v.grid[i].len() == cols_of(v));
    }
}

/// Resizing to a size the terminal already has changes nothing; in
/// particular a second resize to the same size is no change.
pub proof fn lemma_resize_twice(v: TermView, lines: nat, cols: nat)
    requires
        term_wf(v),
    ensures
        resize_view(resize_view(v, lines, cols), lines, cols) == resize_view(v, lines, cols),
{
    let r = resize_view(v, lines, cols);
    let l = at_least_one(lines);
    let c = at_least_one(cols);
    if !(l == lines_of(v) && c == cols_of(v)) {
        assert(r.grid.len() == l);
        assert(r.grid[0].len() == c);
    }
}

/// Writing in the last column leaves a pending wrap (the cursor one past
/// the last column); the next character goes to the first column of the
/// following line (or of the same line after a scroll).
pub proof fn lemma_write_last_column_wraps(v: TermView, c1: char, c2: char)
    requires
        term_wf(v),
        v.cursor.line.0 < lines_of(v),
        v.cursor.col.0 + 1 == cols_of(v),
    ensures
        input_view(v, c1).cursor.col.0 == cols_of(v),
        input_view(v, c1).cursor.line == v.cursor.line,
        input_view(input_view(v, c1), c2).cursor.col.0 == 1,
        wrapped_view(input_view(v, c1)).cursor.col.0 == 0,
{
    let l = v.cursor.line.0 as int;
    assert(v.grid[l].len() == cols_of(v));
    let w = input_view(v, c1);
    if l == 0 {
        assert(w.grid[0].len() == cols_of(v));
    } else {
        assert(w.grid[0] == v.grid[0]);
    }
}

/// A line feed on the last line of the scrolling region scrolls the region
/// up by one and leaves the cursor where it is.
pub proof fn lemma_linefeed_at_region_bottom(v: TermView)
    requires
        term_wf(v),
        v.cursor.line.0 + 1 == v.region_end,
    ensures
        linefeed_view(v).cursor == v.cursor,
        linefeed_view(v).grid == scrolled_up(v.grid, v.region_start as int, v.region_end as int, 1, v.empty),
{
}

/// Inverting the cursor cell twice, as a frame's render does on entry and
/// on exit, gives back the state it started from.
pub proof fn lemma_cursor_inverted_twice(v: TermView)
    requires
        term_wf(v),
    ensures
        cursor_inverted(cursor_inverted(v)) == v,
{
    let l = v.cursor.line.0 as int;
    let k = v.cursor.col.0 as int;
    let w = cursor_inverted(v);
    if w != v {
        assert(v.grid[l].len() == cols_of(v));
        if l == 0 {
            assert(w.grid[0].len() == cols_of(v));
        } else {
            assert(w.grid[0] == v.grid[0]);
        }
        assert(cursor_inverted(w).grid[l] =~= v.grid[l]);
        assert(cursor_inverted(w).grid =~= v.grid);
    }
}

} // verus!
