//! A rectangular, row-major grid of cells.
use vstd::prelude::*;

use crate::cell::Cell;
use crate::index::{Column, Cursor, Line};

verus! {

/// A row of `len` copies of `c`.
pub open spec fn blank_row(len: nat, c: Cell) -> Seq<Cell> {
    Seq::new(len, |j: int| c)
}

/// Every row has the length of the first, and there is at least one row and
/// one column.
pub open spec fn shaped(rows: Seq<Seq<Cell>>) -> bool {
    &&& rows.len() >= 1
    &&& rows[0].len() >= 1
    &&& forall|i: int| 0 <= i < rows.len() ==> #[trigger] rows[i].len() == rows[0].len()
}

/// Rows `[s, e)` replaced by blank rows of `c`.
pub open spec fn fill_rows(rows: Seq<Seq<Cell>>, s: int, e: int, c: Cell) -> Seq<Seq<Cell>> {
    Seq::new(rows.len(), |i: int| if s <= i < e { blank_row(rows[i].len(), c) } else { rows[i] })
}

/// Rows `[s + n, e)` moved up to `[s, e - n)`; the `n` rows that were at the
/// top of the range come round to its bottom.
pub open spec fn rotate_up(rows: Seq<Seq<Cell>>, s: int, e: int, n: int) -> Seq<Seq<Cell>> {
    Seq::new(
        rows.len(),
        |i: int|
            if s <= i < e - n {
                rows[i + n]
            } else if e - n <= i < e {
                rows[i - (e - s - n)]
            } else {
                rows[i]
            },
    )
}

/// Rows `[s, e - n)` moved down to `[s + n, e)`; the `n` rows that were at
/// the bottom of the range come round to its top.
pub open spec fn rotate_down(rows: Seq<Seq<Cell>>, s: int, e: int, n: int) -> Seq<Seq<Cell>> {
    Seq::new(
        rows.len(),
        |i: int|
            if s <= i < s + n {
                rows[i + (e - s - n)]
            } else if s + n <= i < e {
                rows[i - n]
            } else {
                rows[i]
            },
    )
}

/// The top-left `lines` x `cols` of `rows`, padded with `t` where `rows` is
/// smaller.
pub open spec fn resized(rows: Seq<Seq<Cell>>, lines: nat, cols: nat, t: Cell) -> Seq<Seq<Cell>> {
    Seq::new(
        lines,
        |i: int|
            Seq::new(
                cols,
                |j: int|
                    if i < rows.len() && j < rows[i].len() {
                        rows[i][j]
                    } else {
                        t
                    },
            ),
    )
}

/// `rows` with the cell at `(l, c)` replaced by `x`.
pub open spec fn with_cell(rows: Seq<Seq<Cell>>, l: int, c: int, x: Cell) -> Seq<Seq<Cell>> {
    rows.update(l, rows[l].update(c, x))
}

/// The grid of cells, stored row by row.
pub struct Grid {
    raw: Vec<Vec<Cell>>,
    lines: Line,
    cols: Column,
}

impl View for Grid {
    type V = Seq<Seq<Cell>>;

    closed spec fn view(&self) -> Seq<Seq<Cell>> {
        self.raw@.map_values(|r: Vec<Cell>| r@)
    }
}

/// A vector of `cols` copies of `template`.
fn blank_vec(cols: usize, template: &Cell) -> (r: Vec<Cell>)
    ensures
        r@ == blank_row(cols as nat, *template),
{
    let mut row: Vec<Cell> = Vec::with_capacity(cols);
    let mut j: usize = 0;
    while j < cols
        invariant
            j <= cols,
            row@ == blank_row(j as nat, *template),
        decreases cols - j,
    {
        row.push(*template);
        j += 1;
        assert(row@ =~= blank_row(j as nat, *template));
    }
    row
}

/// Truncates `row` to `cols` cells, or pads it with copies of `template`.
fn resize_row(row: &mut Vec<Cell>, cols: usize, template: &Cell)
    ensures
        final(row)@ == Seq::new(
            cols as nat,
            |j: int|
                if j < old(row)@.len() {
                    old(row)@[j]
                } else {
                    *template
                },
        ),
{
    let ghost r0 = row@;
    if cols < row.len() {
        row.truncate(cols);
    }
    while row.len() < cols
        invariant
            row@.len() <= cols,
            forall|j: int|
                0 <= j < row@.len() ==> #[trigger] row@[j] == if j < r0.len() {
                    r0[j]
                } else {
                    *template
                },
            row@.len() >= r0.len() || row@.len() == cols,
            row@.len() <= r0.len() ==> row@ == r0.subrange(0, row@.len() as int),
        decreases cols - row@.len(),
    {
        row.push(*template);
    }
    assert(row@ =~= Seq::new(cols as nat, |j: int| if j < r0.len() { r0[j] } else { *template }));
}

impl Grid {
    /// Internal consistency: the stored sizes match the rows.
    pub closed spec fn inv(&self) -> bool {
        &&& self.raw@.len() == self.lines.0
        &&& self.lines.0 >= 1
        &&& self.cols.0 >= 1
        &&& forall|i: int| 0 <= i < self.raw@.len() ==> #[trigger] self.raw@[i]@.len() == self.cols.0
    }

    proof fn lemma_view(&self)
        requires
            self.inv(),
        ensures
            shaped(self@),
            self@.len() == self.lines.0,
            self@[0].len() == self.cols.0,
            forall|i: int| 0 <= i < self@.len() ==> #[trigger] self@[i] == self.raw@[i]@,
    {
    }

    /// The size of a grid fits in `usize`.
    pub proof fn lemma_size_bound(&self)
        requires
            self.inv(),
        ensures
            self@.len() <= usize::MAX,
            self@[0].len() <= usize::MAX,
    {
        self.lemma_view();
    }

    /// A grid of `lines` rows of `cols` copies of `template`.
    pub fn new(lines: Line, cols: Column, template: &Cell) -> (r: Grid)
        requires
            lines.0 >= 1,
            cols.0 >= 1,
        ensures
            r.inv(),
            shaped(r@),
            r@ == Seq::new(lines.0 as nat, |i: int| blank_row(cols.0 as nat, *template)),
    {
        let mut raw: Vec<Vec<Cell>> = Vec::with_capacity(lines.0);
        let mut i: usize = 0;
        while i < lines.0
            invariant
                i <= lines.0,
                raw@.len() == i,
                forall|k: int| 0 <= k < i ==> #[trigger] raw@[k]@ == blank_row(cols.0 as nat, *template),
            decreases lines.0 - i,
        {
            raw.push(blank_vec(cols.0, template));
            i += 1;
        }
        let g = Grid { raw, lines, cols };
        assert(g@ =~= Seq::new(lines.0 as nat, |i: int| blank_row(cols.0 as nat, *template)));
        g
    }

    /// The number of rows.
    pub fn num_lines(&self) -> (r: Line)
        requires
            self.inv(),
        ensures
            r.0 == self@.len(),
    {
        self.lines
    }

    /// The number of columns.
    pub fn num_cols(&self) -> (r: Column)
        requires
            self.inv(),
        ensures
            r.0 == self@[0].len(),
    {
        proof { self.lemma_view(); }
        self.cols
    }

    /// Whether `cursor` names a cell of the grid.
    pub fn contains(&self, cursor: &Cursor) -> (r: bool)
        requires
            self.inv(),
        ensures
            r == (cursor.line.0 < self@.len() && cursor.col.0 < self@[0].len()),
    {
        proof { self.lemma_view(); }
        cursor.line.0 < self.lines.0 && cursor.col.0 < self.cols.0
    }

    /// The cell at `(line, col)`.
    pub fn cell(&self, line: Line, col: Column) -> (r: &Cell)
        requires
            self.inv(),
            line.0 < self@.len(),
            col.0 < self@[0].len(),
        ensures
            *r == self@[line.0 as int][col.0 as int],
    {
        proof { self.lemma_view(); }
        &self.raw[line.0][col.0]
    }

    /// The row at `line`.
    pub fn row(&self, line: Line) -> (r: &Vec<Cell>)
        requires
            self.inv(),
            line.0 < self@.len(),
        ensures
            r@ == self@[line.0 as int],
    {
        proof { self.lemma_view(); }
        &self.raw[line.0]
    }

    /// Replaces the cell at `(line, col)` by `x`.
    pub fn set_cell(&mut self, line: Line, col: Column, x: Cell)
        requires
            old(self).inv(),
            line.0 < old(self)@.len(),
            col.0 < old(self)@[0].len(),
        ensures
            final(self).inv(),
            shaped(final(self)@),
            final(self)@ == with_cell(old(self)@, line.0 as int, col.0 as int, x),
    {
        proof { self.lemma_view(); }
        let mut row = self.raw.remove(line.0);
        row.set(col.0, x);
        self.raw.insert(line.0, row);
        proof { self.lemma_view(); }
        assert(self@ =~= with_cell(old(self)@, line.0 as int, col.0 as int, x));
    }

    /// Resets every cell to `template`.
    pub fn clear(&mut self, template: &Cell)
        requires
            old(self).inv(),
        ensures
            final(self).inv(),
            shaped(final(self)@),
            final(self)@ == fill_rows(old(self)@, 0, old(self)@.len() as int, *template),
    {
        let end = self.lines;
        self.clear_region(Line(0), end, template);
    }

    /// Resets every cell of the rows `[start, end)` to `template`.
    pub fn clear_region(&mut self, start: Line, end: Line, template: &Cell)
        requires
            old(self).inv(),
            start.0 <= end.0 <= old(self)@.len(),
        ensures
            final(self).inv(),
            shaped(final(self)@),
            final(self)@ == fill_rows(old(self)@, start.0 as int, end.0 as int, *template),
    {
        proof { self.lemma_view(); }
        let ghost g0 = self@;
        let mut i: usize = start.0;
        while i < end.0
            invariant
                start.0 <= i <= end.0,
                end.0 <= self.lines.0,
                self.inv(),
                shaped(g0),
                g0.len() == self.lines.0,
                g0[0].len() == self.cols.0,
                self@ == fill_rows(g0, start.0 as int, i as int, *template),
            decreases end.0 - i,
        {
            proof { self.lemma_view(); }
            let ghost prev = self@;
            let ghost praw = self.raw@;
            let row = blank_vec(self.cols.0, template);
            self.raw.set(i, row);
            assert(self.raw@ == praw.update(i as int, row));
            let ghost idx = i as int;
            i += 1;
            proof {
                self.lemma_view();
                assert forall|k: int| 0 <= k < g0.len() implies #[trigger] self@[k] == fill_rows(
                    g0,
                    start.0 as int,
                    i as int,
                    *template,
                )[k] by {
                    assert(g0[k].len() == g0[0].len());
                    if k != idx {
                        assert(self.raw@[k] == praw[k]);
                        assert(prev[k] == praw[k]@);
                    }
                }
            }
            assert(self@ =~= fill_rows(g0, start.0 as int, i as int, *template));
        }
        proof { self.lemma_view(); }
    }

    /// Moves the rows `[start + n, end)` up to `[start, end - n)`. The `n`
    /// rows that were at the top of the range come round to its bottom, where
    /// the caller clears them.
    pub fn scroll_up(&mut self, start: Line, end: Line, n: Line)
        requires
            old(self).inv(),
            start.0 + n.0 <= end.0 <= old(self)@.len(),
        ensures
            final(self).inv(),
            shaped(final(self)@),
            final(self)@ == rotate_up(old(self)@, start.0 as int, end.0 as int, n.0 as int),
    {
        proof { self.lemma_view(); }
        let ghost r0 = self.raw@;
        let mut bottom = self.raw.split_off(end.0);
        let mut middle = self.raw.split_off(start.0 + n.0);
        let mut top = self.raw.split_off(start.0);
        self.raw.append(&mut middle);
        self.raw.append(&mut top);
        self.raw.append(&mut bottom);
        assert(self.raw@ =~= r0.subrange(0, start.0 as int) + r0.subrange(
            start.0 + n.0,
            end.0 as int,
        ) + r0.subrange(start.0 as int, start.0 + n.0) + r0.subrange(end.0 as int, r0.len() as int));
        proof { self.lemma_view(); }
        assert(self@ =~= rotate_up(old(self)@, start.0 as int, end.0 as int, n.0 as int));
    }

    /// Moves the rows `[start, end - n)` down to `[start + n, end)`. The `n`
    /// rows that were at the bottom of the range come round to its top, where
    /// the caller clears them.
    pub fn scroll_down(&mut self, start: Line, end: Line, n: Line)
        requires
            old(self).inv(),
            start.0 + n.0 <= end.0 <= old(self)@.len(),
        ensures
            final(self).inv(),
            shaped(final(self)@),
            final(self)@ == rotate_down(old(self)@, start.0 as int, end.0 as int, n.0 as int),
    {
        proof { self.lemma_view(); }
        let ghost r0 = self.raw@;
        let mut bottom = self.raw.split_off(end.0);
        let mut lower = self.raw.split_off(end.0 - n.0);
        let mut upper = self.raw.split_off(start.0);
        self.raw.append(&mut lower);
        self.raw.append(&mut upper);
        self.raw.append(&mut bottom);
        assert(self.raw@ =~= r0.subrange(0, start.0 as int) + r0.subrange(
            end.0 - n.0,
            end.0 as int,
        ) + r0.subrange(start.0 as int, end.0 - n.0) + r0.subrange(end.0 as int, r0.len() as int));
        proof { self.lemma_view(); }
        assert(self@ =~= rotate_down(old(self)@, start.0 as int, end.0 as int, n.0 as int));
    }

    /// Changes the size to `lines` x `cols`. Rows are added or removed at the
    /// bottom and columns at the right; what is kept stays in place and new
    /// cells are copies of `template`.
    pub fn resize(&mut self, lines: Line, cols: Column, template: &Cell)
        requires
            old(self).inv(),
            lines.0 >= 1,
            cols.0 >= 1,
        ensures
            final(self).inv(),
            shaped(final(self)@),
            final(self)@ == resized(old(self)@, lines.0 as nat, cols.0 as nat, *template),
    {
        proof { self.lemma_view(); }
        let ghost g0 = self@;
        let ghost want = resized(g0, lines.0 as nat, cols.0 as nat, *template);
        if lines.0 < self.lines.0 {
            self.raw.truncate(lines.0);
        }
        let kept = self.raw.len();
        let mut i: usize = 0;
        while i < kept
            invariant
                i <= kept,
                kept <= lines.0,
                kept <= g0.len(),
                self.raw@.len() == kept,
                want == resized(g0, lines.0 as nat, cols.0 as nat, *template),
                g0.len() == old(self).lines.0,
                kept == if lines.0 < g0.len() { lines.0 as nat } else { g0.len() },
                forall|k: int| 0 <= k < g0.len() ==> #[trigger] g0[k].len() == g0[0].len(),
                forall|k: int| 0 <= k < i ==> #[trigger] self.raw@[k]@ == want[k],
                forall|k: int| i <= k < kept ==> #[trigger] self.raw@[k]@ == g0[k],
            decreases kept - i,
        {
            let mut row = self.raw.remove(i);
            resize_row(&mut row, cols.0, template);
            self.raw.insert(i, row);
            proof {
                assert(row@ =~= want[i as int]);
            }
            i += 1;
        }
        while self.raw.len() < lines.0
            invariant
                kept <= self.raw@.len() <= lines.0,
                kept <= g0.len(),
                kept == if lines.0 < g0.len() { lines.0 as nat } else { g0.len() },
                want == resized(g0, lines.0 as nat, cols.0 as nat, *template),
                forall|k: int| 0 <= k < self.raw@.len() ==> #[trigger] self.raw@[k]@ == want[k],
            decreases lines.0 - self.raw@.len(),
        {
            let ghost k0 = self.raw@.len() as int;
            self.raw.push(blank_vec(cols.0, template));
            assert(self.raw@[k0]@ =~= want[k0]);
        }
        self.lines = lines;
        self.cols = cols;
        proof { self.lemma_view(); }
        assert(self@ =~= want);
    }

    /// Replaces the row at `line` by `row`, which has one cell per column.
    pub fn replace_row(&mut self, line: Line, row: Vec<Cell>)
        requires
            old(self).inv(),
            line.0 < old(self)@.len(),
            row@.len() == old(self)@[0].len(),
        ensures
            final(self).inv(),
            shaped(final(self)@),
            final(self)@ == old(self)@.update(line.0 as int, row@),
    {
        proof { self.lemma_view(); }
        let ghost r = row@;
        self.raw.set(line.0, row);
        proof { self.lemma_view(); }
        assert(self@ =~= old(self)@.update(line.0 as int, r));
    }
}

} // verus!
