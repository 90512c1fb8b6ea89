//! The terminal: two grids, two cursors, tab stops, a scrolling region and
//! the handler operations that the escape-sequence parser drives.
use vstd::prelude::*;

use std::ops::Range;

use crate::cell::{plain_cell, Cell, Flags, Rgb, BOLD, INVERSE, ITALIC, UNDERLINE};
use crate::grid::{blank_row, fill_rows, resized, shaped, with_cell, Grid};
use crate::index::{sat_add, sat_sub, Column, Cursor, Line};

verus! {

/// Columns between two default tab stops.
pub const TAB_SPACES: usize = 8;

/// The cursor is drawn.
pub const SHOW_CURSOR: u8 = 0b0001;
/// Cursor keys send application sequences.
pub const APP_CURSOR: u8 = 0b0010;
/// The keypad sends application sequences.
pub const APP_KEYPAD: u8 = 0b0100;
/// Every mode bit.
pub const ANY: u8 = 0b1111_1111;
/// No mode bit.
pub const NONE: u8 = 0b0000_0000;

/// The set of terminal mode bits.
#[derive(Clone, Copy, Debug, PartialEq, Eq, Structural)]
pub struct TermMode {
    pub bits: u8,
}

impl TermMode {
    /// Whether every bit of the mask `m` is set.
    pub fn contains(&self, m: u8) -> (r: bool)
        ensures
            r == (self.bits & m == m),
    {
        self.bits & m == m
    }

    /// Sets the bits of the mask `m`.
    pub fn insert(&mut self, m: u8)
        ensures
            final(self).bits == old(self).bits | m,
    {
        self.bits = self.bits | m;
    }

    /// Clears the bits of the mask `m`.
    pub fn remove(&mut self, m: u8)
        ensures
            final(self).bits == old(self).bits & !m,
    {
        self.bits = self.bits & !m;
    }
}

impl Default for TermMode {
    /// A terminal starts with the cursor shown.
    fn default() -> (r: TermMode)
        ensures
            r.bits == SHOW_CURSOR,
    {
        TermMode { bits: SHOW_CURSOR }
    }
}

/// Which part of the cursor's line `clear_line` resets.
#[derive(Clone, Copy, Debug, PartialEq, Eq, Structural)]
pub enum LineClearMode {
    Right,
    Left,
    All,
}

/// Which part of the screen `clear_screen` resets.
#[derive(Clone, Copy, Debug, PartialEq, Eq, Structural)]
pub enum ClearMode {
    Below,
    Above,
    All,
}

/// Which tab stops `clear_tabs` removes.
#[derive(Clone, Copy, Debug, PartialEq, Eq, Structural)]
pub enum TabulationClearMode {
    Current,
    All,
}

/// A terminal mode that can be set or unset.
#[derive(Clone, Copy, Debug, PartialEq, Eq, Structural)]
pub enum Mode {
    CursorKeys,
    ColumnMode,
    Insert,
    Origin,
    LineWrap,
    BlinkingCursor,
    LineFeedNewLine,
    ShowCursor,
    ReportMouseClicks,
    ReportMouseMotion,
    SwapScreenAndSetRestoreCursor,
}

/// A character attribute (SGR). Colour indices name entries of the
/// 16-colour palette.
#[derive(Clone, Copy, Debug, PartialEq, Eq, Structural)]
pub enum Attr {
    Reset,
    Bold,
    Dim,
    Italic,
    Underscore,
    BlinkSlow,
    BlinkFast,
    Reverse,
    Hidden,
    Strike,
    CancelBold,
    CancelBoldDim,
    CancelItalic,
    CancelUnderline,
    CancelBlink,
    CancelReverse,
    CancelHidden,
    CancelStrike,
    Foreground(u8),
    ForegroundSpec(Rgb),
    DefaultForeground,
    Background(u8),
    BackgroundSpec(Rgb),
    DefaultBackground,
}

/// The terminal state as plain mathematical values.
pub struct TermView {
    pub grid: Seq<Seq<Cell>>,
    pub alt_grid: Seq<Seq<Cell>>,
    pub alt: bool,
    pub cursor: Cursor,
    pub alt_cursor: Cursor,
    pub tabs: Seq<bool>,
    pub mode: TermMode,
    pub region_start: nat,
    pub region_end: nat,
    pub template: Cell,
    pub empty: Cell,
    pub colors: Seq<Rgb>,
    pub fg: Rgb,
    pub bg: Rgb,
    pub dirty: bool,
}

/// Number of lines of the active grid.
pub open spec fn lines_of(v: TermView) -> nat {
    v.grid.len()
}

/// Number of columns of the active grid.
pub open spec fn cols_of(v: TermView) -> nat {
    v.grid[0].len()
}

/// The default tab stops of a line of `cols` columns: every eighth column,
/// but not the first.
pub open spec fn default_tabs(cols: nat) -> Seq<bool> {
    Seq::new(cols, |i: int| i != 0 && i % (TAB_SPACES as int) == 0)
}

/// What holds of the terminal after every handler call.
pub open spec fn term_wf(v: TermView) -> bool {
    &&& shaped(v.grid)
    &&& shaped(v.alt_grid)
    &&& v.alt_grid.len() == lines_of(v)
    &&& v.alt_grid[0].len() == cols_of(v)
    &&& v.cursor.line.0 <= lines_of(v)
    &&& v.cursor.col.0 <= cols_of(v)
    &&& v.alt_cursor.line.0 <= lines_of(v)
    &&& v.alt_cursor.col.0 <= cols_of(v)
    &&& v.tabs == default_tabs(cols_of(v))
    &&& v.region_start < v.region_end <= lines_of(v)
    &&& v.colors.len() == 16
    &&& lines_of(v) <= usize::MAX
    &&& cols_of(v) <= usize::MAX
}


/// The smaller of two naturals.
pub open spec fn min_nat(a: nat, b: nat) -> nat {
    if a <= b { a } else { b }
}

/// Rows `[o + n, e)` of `g` moved up by `n`; the bottom `n` rows of `[o, e)`
/// become blank rows of `c`; rows outside `[o, e)` are kept.
pub open spec fn scrolled_up(g: Seq<Seq<Cell>>, o: int, e: int, n: int, c: Cell) -> Seq<Seq<Cell>> {
    Seq::new(
        g.len(),
        |i: int|
            if o <= i < e - n {
                g[i + n]
            } else if e - n <= i < e {
                blank_row(g[i].len(), c)
            } else {
                g[i]
            },
    )
}

/// Rows `[o, e - n)` of `g` moved down by `n`; the top `n` rows of `[o, e)`
/// become blank rows of `c`; rows outside `[o, e)` are kept.
pub open spec fn scrolled_down(g: Seq<Seq<Cell>>, o: int, e: int, n: int, c: Cell) -> Seq<Seq<Cell>> {
    Seq::new(
        g.len(),
        |i: int|
            if o <= i < o + n {
                blank_row(g[i].len(), c)
            } else if o + n <= i < e {
                g[i - n]
            } else {
                g[i]
            },
    )
}

/// `v` with its lines `[origin, region end)` scrolled up by `n`, at most the
/// height of that range.
pub open spec fn scroll_up_rel_view(v: TermView, origin: nat, n: nat) -> TermView {
    let k = min_nat(n, (v.region_end - origin) as nat);
    TermView { grid: scrolled_up(v.grid, origin as int, v.region_end as int, k as int, v.empty), dirty: true, ..v }
}

/// `v` with its lines `[origin, region end)` scrolled down by `n`, at most
/// the height of that range.
pub open spec fn scroll_down_rel_view(v: TermView, origin: nat, n: nat) -> TermView {
    let k = min_nat(n, (v.region_end - origin) as nat);
    TermView { grid: scrolled_down(v.grid, origin as int, v.region_end as int, k as int, v.empty), dirty: true, ..v }
}

/// `v` with the cursor moved to `(line, col)`.
pub open spec fn with_cursor(v: TermView, line: nat, col: nat) -> TermView {
    TermView { cursor: Cursor { line: Line(line as usize), col: Column(col as usize) }, dirty: true, ..v }
}

/// The state after a line feed: at the last line of the scrolling region the
/// region scrolls up by one; elsewhere the cursor moves down one line.
pub open spec fn linefeed_view(v: TermView) -> TermView {
    if v.cursor.line.0 + 1 == v.region_end {
        scroll_up_rel_view(v, v.region_start, 1)
    } else {
        with_cursor(v, (v.cursor.line.0 + 1) as nat, v.cursor.col.0 as nat)
    }
}

/// The state after a reverse index: at the first line of the scrolling
/// region the region scrolls down by one; elsewhere the cursor moves up one
/// line.
pub open spec fn reverse_index_view(v: TermView) -> TermView {
    if v.cursor.line.0 == v.region_start {
        scroll_down_rel_view(v, v.region_start, 1)
    } else {
        with_cursor(v, sat_sub(v.cursor.line.0 as nat, 1), v.cursor.col.0 as nat)
    }
}

/// Whether the cursor's line lies in the scrolling region.
pub open spec fn in_region(v: TermView) -> bool {
    v.region_start <= v.cursor.line.0 < v.region_end
}

/// Where pending wrap, if any, leaves the state before a character is
/// written.
pub open spec fn wrapped_view(v: TermView) -> TermView {
    if v.cursor.col.0 == cols_of(v) {
        let w = if v.cursor.line.0 + 1 >= v.region_end {
            linefeed_view(v)
        } else {
            with_cursor(v, (v.cursor.line.0 + 1) as nat, v.cursor.col.0 as nat)
        };
        with_cursor(w, w.cursor.line.0 as nat, 0)
    } else {
        v
    }
}

/// A character can be written: after any wrap the cursor is on a line of
/// the grid.
pub open spec fn can_input(v: TermView) -> bool {
    if v.cursor.col.0 == cols_of(v) {
        v.cursor.line.0 + 1 == v.region_end || v.cursor.line.0 + 1 < lines_of(v)
    } else {
        v.cursor.line.0 < lines_of(v)
    }
}

/// The state after writing `c`: the template cell holding `c` is placed at
/// the (wrapped) cursor, which then moves one column right.
pub open spec fn input_view(v: TermView, c: char) -> TermView {
    let w = wrapped_view(v);
    let l = w.cursor.line.0 as int;
    let k = w.cursor.col.0 as int;
    TermView {
        grid: with_cell(w.grid, l, k, Cell { c, ..w.template }),
        cursor: Cursor { line: w.cursor.line, col: Column((k + 1) as usize) },
        dirty: true,
        ..w
    }
}

/// `r` with `k` copies of `e` inserted at `col`; the cells pushed past the end
/// are lost.
pub open spec fn inserted_blank(r: Seq<Cell>, col: int, k: int, e: Cell) -> Seq<Cell> {
    Seq::new(r.len(), |j: int| if j < col { r[j] } else if j < col + k { e } else { r[j - k] })
}

/// `r` with the `k` cells at `col` removed; the end is filled with `e`.
pub open spec fn deleted_chars(r: Seq<Cell>, col: int, k: int, e: Cell) -> Seq<Cell> {
    Seq::new(r.len(), |j: int| if j < col { r[j] } else if j < r.len() - k { r[j + k] } else { e })
}

/// `r` with the cells `[s, t)` replaced by `e`.
pub open spec fn erased(r: Seq<Cell>, s: int, t: int, e: Cell) -> Seq<Cell> {
    Seq::new(r.len(), |j: int| if s <= j < t { e } else { r[j] })
}

/// `v` with the cursor's line replaced by `row`.
pub open spec fn with_cursor_row(v: TermView, row: Seq<Cell>) -> TermView {
    TermView { grid: v.grid.update(v.cursor.line.0 as int, row), dirty: true, ..v }
}

/// The cursor's line.
pub open spec fn cursor_row(v: TermView) -> Seq<Cell> {
    v.grid[v.cursor.line.0 as int]
}

/// How many cells from the cursor to the end of the line are affected by a
/// count of `n`.
pub open spec fn clamp_count(v: TermView, n: nat) -> nat {
    min_nat(n, (cols_of(v) - v.cursor.col.0) as nat)
}

/// The first tab stop at or after `col`, or `cols` if there is none.
pub open spec fn next_tab(tabs: Seq<bool>, cols: nat, col: nat) -> nat
    decreases cols - col,
{
    if col >= cols || tabs[col as int] {
        col
    } else {
        next_tab(tabs, cols, col + 1)
    }
}

/// The column a tab with `count` repetitions leads to.
pub open spec fn put_tab_col(v: TermView, count: int) -> nat {
    if count > 0 && v.cursor.col.0 < cols_of(v) {
        next_tab(v.tabs, cols_of(v), v.cursor.col.0 as nat)
    } else {
        v.cursor.col.0 as nat
    }
}

/// The state after switching between the primary and the alternate screen.
/// The screen switched to is cleared when it is the alternate one.
pub open spec fn swap_alt_view(v: TermView) -> TermView {
    let now_alt = !v.alt;
    TermView {
        alt: now_alt,
        grid: if now_alt { fill_rows(v.alt_grid, 0, v.alt_grid.len() as int, v.empty) } else { v.alt_grid },
        alt_grid: v.grid,
        cursor: v.alt_cursor,
        alt_cursor: v.cursor,
        dirty: true,
        ..v
    }
}

/// The template cell after the attribute `attr`.
pub open spec fn attr_template(v: TermView, attr: Attr) -> Cell {
    let t = v.template;
    match attr {
        Attr::DefaultForeground => Cell { fg: v.fg, ..t },
        Attr::DefaultBackground => Cell { bg: v.bg, ..t },
        Attr::Foreground(i) => Cell { fg: v.colors[i as int], ..t },
        Attr::Background(i) => Cell { bg: v.colors[i as int], ..t },
        Attr::ForegroundSpec(rgb) => Cell { fg: rgb, ..t },
        Attr::BackgroundSpec(rgb) => Cell { bg: rgb, ..t },
        Attr::Reset => Cell { fg: v.fg, bg: v.bg, flags: Flags { bits: 0 }, ..t },
        Attr::Reverse => Cell { flags: Flags { bits: t.flags.bits | INVERSE }, ..t },
        Attr::CancelReverse => Cell { flags: Flags { bits: t.flags.bits & !INVERSE }, ..t },
        Attr::Bold => Cell { flags: Flags { bits: t.flags.bits | BOLD }, ..t },
        Attr::CancelBold => Cell { flags: Flags { bits: t.flags.bits & !BOLD }, ..t },
        Attr::CancelBoldDim => Cell { flags: Flags { bits: t.flags.bits & !BOLD }, ..t },
        Attr::Italic => Cell { flags: Flags { bits: t.flags.bits | ITALIC }, ..t },
        Attr::CancelItalic => Cell { flags: Flags { bits: t.flags.bits & !ITALIC }, ..t },
        Attr::Underscore => Cell { flags: Flags { bits: t.flags.bits | UNDERLINE }, ..t },
        Attr::CancelUnderline => Cell { flags: Flags { bits: t.flags.bits & !UNDERLINE }, ..t },
        _ => t,
    }
}

/// A palette index in `attr`, if any, names one of the 16 colours.
pub open spec fn attr_ok(attr: Attr) -> bool {
    match attr {
        Attr::Foreground(i) => i < 16,
        Attr::Background(i) => i < 16,
        _ => true,
    }
}

/// The state after setting (`on`) or unsetting the mode `m`.
pub open spec fn mode_view(v: TermView, m: Mode, on: bool) -> TermView {
    match m {
        Mode::SwapScreenAndSetRestoreCursor => swap_alt_view(v),
        Mode::ShowCursor => TermView {
            mode: TermMode { bits: if on { v.mode.bits | SHOW_CURSOR } else { v.mode.bits & !SHOW_CURSOR } },
            dirty: true,
            ..v
        },
        Mode::CursorKeys => TermView {
            mode: TermMode { bits: if on { v.mode.bits | APP_CURSOR } else { v.mode.bits & !APP_CURSOR } },
            dirty: true,
            ..v
        },
        _ => v,
    }
}

/// At least one.
pub open spec fn at_least_one(n: nat) -> nat {
    if n == 0 { 1 } else { n }
}

/// `x` clamped to at most `max`.
pub open spec fn clamp_to(x: nat, max: nat) -> nat {
    if x > max { max } else { x }
}

/// The state before the grids change size: the scrolling region spans the
/// screen, and when the cursor would fall below the new last line the screen
/// scrolls up just enough to keep it on that line.
pub open spec fn resize_scrolled(v: TermView, l: nat) -> TermView {
    let v1 = TermView { region_start: 0, region_end: lines_of(v), ..v };
    if v.cursor.line.0 >= l {
        let k = (v.cursor.line.0 - l + 1) as nat;
        let v2 = scroll_up_rel_view(v1, 0, k);
        TermView { cursor: Cursor { line: Line((v.cursor.line.0 - k) as usize), col: v.cursor.col }, ..v2 }
    } else {
        v1
    }
}

/// The state after the grids of `s` take the size `l` x `c`: both keep their
/// top-left content, both cursors are clamped into the new size, the tab
/// stops are rebuilt, both grids are cleared from the cursor's line down and
/// the scrolling region spans the new screen.
pub open spec fn resize_applied(s: TermView, l: nat, c: nat) -> TermView {
    let cur = Cursor {
        line: Line(clamp_to(s.cursor.line.0 as nat, l) as usize),
        col: Column(clamp_to(s.cursor.col.0 as nat, c) as usize),
    };
    let alt_cur = Cursor {
        line: Line(clamp_to(s.alt_cursor.line.0 as nat, l) as usize),
        col: Column(clamp_to(s.alt_cursor.col.0 as nat, c) as usize),
    };
    TermView {
        grid: fill_rows(resized(s.grid, l, c, plain_cell(' ')), cur.line.0 as int, l as int, s.empty),
        alt_grid: fill_rows(resized(s.alt_grid, l, c, plain_cell(' ')), cur.line.0 as int, l as int, s.empty),
        cursor: cur,
        alt_cursor: alt_cur,
        tabs: default_tabs(c),
        region_start: 0,
        region_end: l,
        dirty: true,
        ..s
    }
}

/// The state after a resize to `lines` x `cols` (a zero counts as one).
/// Nothing changes when the size is the same.
pub open spec fn resize_view(v: TermView, lines: nat, cols: nat) -> TermView {
    let l = at_least_one(lines);
    let c = at_least_one(cols);
    if l == lines_of(v) && c == cols_of(v) {
        v
    } else {
        resize_applied(resize_scrolled(v, l), l, c)
    }
}

/// When the cursor is shown and on a cell of the grid, that cell with its
/// foreground and background swapped; otherwise no change.
pub open spec fn cursor_inverted(v: TermView) -> TermView {
    let l = v.cursor.line.0 as int;
    let k = v.cursor.col.0 as int;
    if v.mode.bits & SHOW_CURSOR == SHOW_CURSOR && l < lines_of(v) && k < cols_of(v) {
        let x = v.grid[l][k];
        TermView { grid: with_cell(v.grid, l, k, Cell { fg: x.bg, bg: x.fg, ..x }), ..v }
    } else {
        v
    }
}

/// The terminal state machine.
pub struct Term {
    grid: Grid,
    alt_grid: Grid,
    alt: bool,
    cursor: Cursor,
    alt_cursor: Cursor,
    /// Default foreground colour.
    pub fg: Rgb,
    /// Default background colour.
    pub bg: Rgb,
    tabs: Vec<bool>,
    mode: TermMode,
    scroll_region: Range<Line>,
    template_cell: Cell,
    empty_cell: Cell,
    colors: [Rgb; 16],
    /// Set by every handler call that changes the state; cleared by the
    /// renderer.
    pub dirty: bool,
}

impl View for Term {
    type V = TermView;

    closed spec fn view(&self) -> TermView {
        TermView {
            grid: self.grid@,
            alt_grid: self.alt_grid@,
            alt: self.alt,
            cursor: self.cursor,
            alt_cursor: self.alt_cursor,
            tabs: self.tabs@,
            mode: self.mode,
            region_start: self.scroll_region.start.0 as nat,
            region_end: self.scroll_region.end.0 as nat,
            template: self.template_cell,
            empty: self.empty_cell,
            colors: self.colors@,
            fg: self.fg,
            bg: self.bg,
            dirty: self.dirty,
        }
    }
}

/// Tab stops for `cols` columns.
fn make_tabs(cols: usize) -> (r: Vec<bool>)
    ensures
        r@ == default_tabs(cols as nat),
{
    let mut tabs: Vec<bool> = Vec::with_capacity(cols);
    let mut i: usize = 0;
    while i < cols
        invariant
            i <= cols,
            tabs@ == Seq::new(i as nat, |k: int| k % (TAB_SPACES as int) == 0),
        decreases cols - i,
    {
        tabs.push(i % TAB_SPACES == 0);
        i += 1;
        assert(tabs@ =~= Seq::new(i as nat, |k: int| k % (TAB_SPACES as int) == 0));
    }
    if cols > 0 {
        tabs.set(0, false);
    }
    assert(tabs@ =~= default_tabs(cols as nat));
    tabs
}

/// The state of a new terminal of `lines` x `cols` (at least one of each).
pub open spec fn new_view(fg: Rgb, bg: Rgb, colors: Seq<Rgb>, lines: nat, cols: nat) -> TermView {
    let l = if lines == 0 { 1 } else { lines };
    let c = if cols == 0 { 1 } else { cols };
    let t = Cell { c: ' ', fg, bg, flags: Flags { bits: 0 } };
    TermView {
        grid: Seq::new(l, |i: int| blank_row(c, plain_cell(' '))),
        alt_grid: Seq::new(l, |i: int| blank_row(c, plain_cell(' '))),
        alt: false,
        cursor: Cursor { line: Line(0), col: Column(0) },
        alt_cursor: Cursor { line: Line(0), col: Column(0) },
        tabs: default_tabs(c),
        mode: TermMode { bits: SHOW_CURSOR },
        region_start: 0,
        region_end: l,
        template: t,
        empty: t,
        colors,
        fg,
        bg,
        dirty: true,
    }
}

impl Term {
    /// The internal consistency of the terminal, and `term_wf` of its view.
    pub open spec fn inv(&self) -> bool {
        self.parts_ok() && term_wf(self@)
    }

    /// The grids and the tab list are consistent with their views.
    pub closed spec fn parts_ok(&self) -> bool {
        self.grid.inv() && self.alt_grid.inv()
    }

    proof fn lemma_size_bound(&self)
        requires
            self.inv(),
        ensures
            lines_of(self@) <= usize::MAX,
            cols_of(self@) <= usize::MAX,
    {
        self.grid.lemma_size_bound();
    }

    /// A terminal of `lines` x `cols` cells whose default colours are `fg`
    /// and `bg` and whose palette is `colors`. A size of zero counts as one.
    pub fn new(fg: Rgb, bg: Rgb, colors: [Rgb; 16], lines: Line, cols: Column) -> (r: Term)
        ensures
            r.inv(),
            r@ == new_view(fg, bg, colors@, lines.0 as nat, cols.0 as nat),
    {
        let num_lines = if lines.0 == 0 { Line(1) } else { lines };
        let num_cols = if cols.0 == 0 { Column(1) } else { cols };
        let mut template = Cell::new(' ');
        template.flags = Flags::empty();
        template.bg = bg;
        template.fg = fg;
        let grid = Grid::new(num_lines, num_cols, &Cell::new(' '));
        let alt = Grid::new(num_lines, num_cols, &Cell::new(' '));
        let tabs = make_tabs(num_cols.0);
        let t = Term {
            dirty: true,
            grid,
            alt_grid: alt,
            alt: false,
            cursor: Cursor { line: Line(0), col: Column(0) },
            alt_cursor: Cursor { line: Line(0), col: Column(0) },
            fg,
            bg,
            tabs,
            mode: TermMode::default(),
            scroll_region: Range { start: Line(0), end: num_lines },
            template_cell: template,
            empty_cell: template,
            colors,
        };
        assert(t@ =~= new_view(fg, bg, colors@, lines.0 as nat, cols.0 as nat));
        t
    }

    /// The number of lines.
    pub fn lines(&self) -> (r: Line)
        requires
            self.inv(),
        ensures
            r.0 == lines_of(self@),
    {
        self.grid.num_lines()
    }

    /// The number of columns.
    pub fn cols(&self) -> (r: Column)
        requires
            self.inv(),
        ensures
            r.0 == cols_of(self@),
    {
        self.grid.num_cols()
    }

    /// The mode bits.
    pub fn mode(&self) -> (r: &TermMode)
        ensures
            *r == self@.mode,
    {
        &self.mode
    }

    /// Clears the top `lines` rows of `[origin, region end)` and moves the
    /// rest of that range up into their place.
    fn scroll_up_relative(&mut self, origin: Line, lines: Line)
        requires
            old(self).inv(),
            origin.0 <= old(self)@.region_end,
        ensures
            final(self).inv(),
            final(self)@ == scroll_up_rel_view(old(self)@, origin.0 as nat, lines.0 as nat),
    {
        let ghost v = self@;
        let end = self.scroll_region.end;
        let k = if lines.0 <= end.0 - origin.0 { lines } else { Line(end.0 - origin.0) };
        let template = self.empty_cell;
        self.grid.clear_region(origin, Line(origin.0 + k.0), &template);
        let ghost g1 = self.grid@;
        self.grid.scroll_up(origin, end, k);
        proof {
            let want = scrolled_up(v.grid, origin.0 as int, end.0 as int, k.0 as int, template);
            assert forall|i: int| 0 <= i < v.grid.len() implies #[trigger] self.grid@[i] == want[i] by {
                if end.0 - k.0 <= i < end.0 {
                    let j = i - (end.0 - origin.0 - k.0);
                    assert(v.grid[j].len() == v.grid[0].len());
                    assert(v.grid[i].len() == v.grid[0].len());
                }
            }
            assert(self.grid@ =~= want);
        }
        self.dirty = true;
        assert(self@ == scroll_up_rel_view(v, origin.0 as nat, lines.0 as nat));
    }

    /// Clears the bottom `lines` rows of `[origin, region end)` and moves the
    /// rest of that range down into their place.
    fn scroll_down_relative(&mut self, origin: Line, lines: Line)
        requires
            old(self).inv(),
            origin.0 <= old(self)@.region_end,
        ensures
            final(self).inv(),
            final(self)@ == scroll_down_rel_view(old(self)@, origin.0 as nat, lines.0 as nat),
    {
        let ghost v = self@;
        let end = self.scroll_region.end;
        let k = if lines.0 <= end.0 - origin.0 { lines } else { Line(end.0 - origin.0) };
        let template = self.empty_cell;
        self.grid.clear_region(Line(end.0 - k.0), end, &template);
        self.grid.scroll_down(origin, end, k);
        proof {
            let want = scrolled_down(v.grid, origin.0 as int, end.0 as int, k.0 as int, template);
            assert forall|i: int| 0 <= i < v.grid.len() implies #[trigger] self.grid@[i] == want[i] by {
                if origin.0 <= i < origin.0 + k.0 {
                    let j = i + (end.0 - origin.0 - k.0);
                    assert(v.grid[j].len() == v.grid[0].len());
                    assert(v.grid[i].len() == v.grid[0].len());
                }
            }
            assert(self.grid@ =~= want);
        }
        self.dirty = true;
        assert(self@ == scroll_down_rel_view(v, origin.0 as nat, lines.0 as nat));
    }

    /// Scrolls the scrolling region up by `lines` (at most its height); the
    /// bottom lines become blank.
    pub fn scroll_up(&mut self, lines: Line)
        requires
            old(self).inv(),
        ensures
            final(self).inv(),
            final(self)@ == scroll_up_rel_view(old(self)@, old(self)@.region_start, lines.0 as nat),
    {
        let origin = self.scroll_region.start;
        self.scroll_up_relative(origin, lines);
    }

    /// Scrolls the scrolling region down by `lines` (at most its height); the
    /// top lines become blank.
    pub fn scroll_down(&mut self, lines: Line)
        requires
            old(self).inv(),
        ensures
            final(self).inv(),
            final(self)@ == scroll_down_rel_view(old(self)@, old(self)@.region_start, lines.0 as nat),
    {
        let origin = self.scroll_region.start;
        self.scroll_down_relative(origin, lines);
    }

    /// Inserts `lines` blank lines at the cursor, pushing the lines below it
    /// down within the scrolling region. Nothing happens when the cursor is
    /// outside the region.
    pub fn insert_blank_lines(&mut self, lines: Line)
        requires
            old(self).inv(),
        ensures
            final(self).inv(),
            final(self)@ == if in_region(old(self)@) {
                scroll_down_rel_view(old(self)@, old(self)@.cursor.line.0 as nat, lines.0 as nat)
            } else {
                old(self)@
            },
    {
        if self.scroll_region.start.0 <= self.cursor.line.0 && self.cursor.line.0 < self.scroll_region.end.0 {
            let origin = self.cursor.line;
            self.scroll_down_relative(origin, lines);
        }
    }

    /// Deletes `lines` lines at the cursor, pulling the lines below it up
    /// within the scrolling region. Nothing happens when the cursor is outside
    /// the region.
    pub fn delete_lines(&mut self, lines: Line)
        requires
            old(self).inv(),
        ensures
            final(self).inv(),
            final(self)@ == if in_region(old(self)@) {
                scroll_up_rel_view(old(self)@, old(self)@.cursor.line.0 as nat, lines.0 as nat)
            } else {
                old(self)@
            },
    {
        if self.scroll_region.start.0 <= self.cursor.line.0 && self.cursor.line.0 < self.scroll_region.end.0 {
            let origin = self.cursor.line;
            self.scroll_up_relative(origin, lines);
        }
    }

    /// Line feed: scrolls at the last line of the scrolling region, otherwise
    /// moves the cursor down one line.
    pub fn linefeed(&mut self)
        requires
            old(self).inv(),
            old(self)@.cursor.line.0 < lines_of(old(self)@),
        ensures
            final(self).inv(),
            final(self)@ == linefeed_view(old(self)@),
    {
        proof { self.lemma_size_bound(); }
        if self.cursor.line.0 + 1 == self.scroll_region.end.0 {
            self.scroll_up(Line(1));
        } else {
            self.cursor.line = Line(self.cursor.line.0 + 1);
            self.dirty = true;
        }
    }

    /// Reverse index: scrolls down at the first line of the scrolling region,
    /// otherwise moves the cursor up one line.
    pub fn reverse_index(&mut self)
        requires
            old(self).inv(),
        ensures
            final(self).inv(),
            final(self)@ == reverse_index_view(old(self)@),
    {
        if self.cursor.line.0 == self.scroll_region.start.0 {
            self.scroll_down(Line(1));
        } else {
            self.cursor.line = self.cursor.line.saturating_sub(Line(1));
            self.dirty = true;
        }
    }

    /// Writes `c` at the cursor with the current attributes and moves the
    /// cursor one column right. When a wrap is pending the cursor first goes
    /// to the start of the next line, scrolling at the bottom of the region.
    pub fn input(&mut self, c: char)
        requires
            old(self).inv(),
            can_input(old(self)@),
        ensures
            final(self).inv(),
            final(self)@ == input_view(old(self)@, c),
    {
        let ghost v = self@;
        proof { self.lemma_size_bound(); }
        if self.cursor.col.0 == self.grid.num_cols().0 {
            if self.cursor.line.0 + 1 >= self.scroll_region.end.0 {
                self.linefeed();
            } else {
                self.cursor.line = Line(self.cursor.line.0 + 1);
                self.dirty = true;
            }
            self.cursor.col = Column(0);
        }
        assert(self@ == wrapped_view(v));
        let mut cell = self.template_cell;
        cell.c = c;
        self.grid.set_cell(self.cursor.line, self.cursor.col, cell);
        self.cursor.col = Column(self.cursor.col.0 + 1);
        self.dirty = true;
        proof {
            let g = self.grid@;
            assert(shaped(g));
        }
        assert(self@ == input_view(v, c));
    }

    /// Moves the cursor to `(line, col)`.
    pub fn goto(&mut self, line: Line, col: Column)
        requires
            old(self).inv(),
            line.0 <= lines_of(old(self)@),
            col.0 <= cols_of(old(self)@),
        ensures
            final(self).inv(),
            final(self)@ == with_cursor(old(self)@, line.0 as nat, col.0 as nat),
    {
        self.cursor.line = line;
        self.cursor.col = col;
        self.dirty = true;
    }

    /// Moves the cursor to `line`, keeping its column.
    pub fn goto_line(&mut self, line: Line)
        requires
            old(self).inv(),
            line.0 <= lines_of(old(self)@),
        ensures
            final(self).inv(),
            final(self)@ == with_cursor(old(self)@, line.0 as nat, old(self)@.cursor.col.0 as nat),
    {
        self.cursor.line = line;
        self.dirty = true;
    }

    /// Moves the cursor to `col`, keeping its line.
    pub fn goto_col(&mut self, col: Column)
        requires
            old(self).inv(),
            col.0 <= cols_of(old(self)@),
        ensures
            final(self).inv(),
            final(self)@ == with_cursor(old(self)@, old(self)@.cursor.line.0 as nat, col.0 as nat),
    {
        self.cursor.col = col;
        self.dirty = true;
    }

    /// Moves the cursor up `lines` lines, stopping at the first line.
    pub fn move_up(&mut self, lines: Line)
        requires
            old(self).inv(),
        ensures
            final(self).inv(),
            final(self)@ == with_cursor(
                old(self)@,
                sat_sub(old(self)@.cursor.line.0 as nat, lines.0 as nat),
                old(self)@.cursor.col.0 as nat,
            ),
    {
        self.cursor.line = self.cursor.line.saturating_sub(lines);
        self.dirty = true;
    }

    /// Moves the cursor down `lines` lines, stopping one past the last line.
    pub fn move_down(&mut self, lines: Line)
        requires
            old(self).inv(),
        ensures
            final(self).inv(),
            final(self)@ == with_cursor(
                old(self)@,
                clamp_to(sat_add(old(self)@.cursor.line.0 as nat, lines.0 as nat), lines_of(old(self)@)),
                old(self)@.cursor.col.0 as nat,
            ),
    {
        let num_lines = self.grid.num_lines();
        let moved = self.cursor.line.saturating_add(lines);
        self.cursor.line = Line(crate::index::limit(moved.0, 0, num_lines.0));
        self.dirty = true;
    }

    /// Moves the cursor right `cols` columns, stopping at the pending-wrap
    /// column one past the last.
    pub fn move_forward(&mut self, cols: Column)
        requires
            old(self).inv(),
        ensures
            final(self).inv(),
            final(self)@ == with_cursor(
                old(self)@,
                old(self)@.cursor.line.0 as nat,
                clamp_to(sat_add(old(self)@.cursor.col.0 as nat, cols.0 as nat), cols_of(old(self)@)),
            ),
    {
        let num_cols = self.grid.num_cols();
        let moved = self.cursor.col.saturating_add(cols);
        self.cursor.col = Column(crate::index::limit(moved.0, 0, num_cols.0));
        self.dirty = true;
    }

    /// Moves the cursor left `cols` columns, stopping at the first column.
    pub fn move_backward(&mut self, cols: Column)
        requires
            old(self).inv(),
        ensures
            final(self).inv(),
            final(self)@ == with_cursor(
                old(self)@,
                old(self)@.cursor.line.0 as nat,
                sat_sub(old(self)@.cursor.col.0 as nat, cols.0 as nat),
            ),
    {
        self.cursor.col = self.cursor.col.saturating_sub(cols);
        self.dirty = true;
    }

    /// Moves the cursor one column left, stopping at the first column.
    pub fn backspace(&mut self)
        requires
            old(self).inv(),
        ensures
            final(self).inv(),
            final(self)@ == with_cursor(
                old(self)@,
                old(self)@.cursor.line.0 as nat,
                sat_sub(old(self)@.cursor.col.0 as nat, 1),
            ),
    {
        self.cursor.col = self.cursor.col.saturating_sub(Column(1));
        self.dirty = true;
    }

    /// Moves the cursor to the first column.
    pub fn carriage_return(&mut self)
        requires
            old(self).inv(),
        ensures
            final(self).inv(),
            final(self)@ == with_cursor(old(self)@, old(self)@.cursor.line.0 as nat, 0),
    {
        self.cursor.col = Column(0);
        self.dirty = true;
    }

    /// Moves the cursor to the next tab stop at or after it (or to the end of
    /// the line) when `count` is positive and the cursor is inside the line.
    pub fn put_tab(&mut self, count: i64)
        requires
            old(self).inv(),
        ensures
            final(self).inv(),
            final(self)@ == with_cursor(old(self)@, old(self)@.cursor.line.0 as nat, put_tab_col(old(self)@, count as int)),
    {
        let ghost v = self@;
        let num_cols = self.grid.num_cols();
        let mut col = self.cursor.col;
        if count > 0 && col.0 < num_cols.0 {
            while col.0 < num_cols.0 && !self.tabs[col.0]
                invariant
                    self@ == v,
                    self.inv(),
                    num_cols.0 == cols_of(v),
                    v.cursor.col.0 <= col.0 <= num_cols.0,
                    next_tab(v.tabs, cols_of(v), col.0 as nat) == next_tab(v.tabs, cols_of(v), v.cursor.col.0 as nat),
                decreases num_cols.0 - col.0,
            {
                col = Column(col.0 + 1);
            }
        }
        self.cursor.col = col;
        self.dirty = true;
    }

    /// Inserts `count` blank cells at the cursor (at most up to the end of
    /// the line); the cells from the cursor on move right and those pushed
    /// past the end are lost.
    pub fn insert_blank(&mut self, count: Column)
        requires
            old(self).inv(),
            old(self)@.cursor.line.0 < lines_of(old(self)@),
        ensures
            final(self).inv(),
            final(self)@ == with_cursor_row(
                old(self)@,
                inserted_blank(
                    cursor_row(old(self)@),
                    old(self)@.cursor.col.0 as int,
                    clamp_count(old(self)@, count.0 as nat) as int,
                    old(self)@.empty,
                ),
            ),
    {
        let ghost v = self@;
        let num_cols = self.grid.num_cols().0;
        let col = self.cursor.col.0;
        let k = if count.0 <= num_cols - col { count.0 } else { num_cols - col };
        let old_row = self.grid.row(self.cursor.line);
        let ghost want = inserted_blank(old_row@, col as int, k as int, self.empty_cell);
        proof { assert(old_row@.len() == num_cols); }
        let mut row: Vec<Cell> = Vec::with_capacity(num_cols);
        let mut j: usize = 0;
        while j < num_cols
            invariant
                j <= num_cols,
                old_row@.len() == num_cols,
                col + k <= num_cols,
                want == inserted_blank(old_row@, col as int, k as int, self.empty_cell),
                row@ == want.subrange(0, j as int),
            decreases num_cols - j,
        {
            let x = if j < col {
                old_row[j]
            } else if j < col + k {
                self.empty_cell
            } else {
                old_row[j - k]
            };
            row.push(x);
            j += 1;
            assert(row@ =~= want.subrange(0, j as int));
        }
        assert(row@ =~= want);
        let line = self.cursor.line;
        self.grid.replace_row(line, row);
        self.dirty = true;
    }

    /// Deletes `count` cells at the cursor (at most up to the end of the
    /// line); the cells after them move left and the end of the line is
    /// filled with blanks.
    pub fn delete_chars(&mut self, count: Column)
        requires
            old(self).inv(),
            old(self)@.cursor.line.0 < lines_of(old(self)@),
        ensures
            final(self).inv(),
            final(self)@ == with_cursor_row(
                old(self)@,
                deleted_chars(
                    cursor_row(old(self)@),
                    old(self)@.cursor.col.0 as int,
                    clamp_count(old(self)@, count.0 as nat) as int,
                    old(self)@.empty,
                ),
            ),
    {
        let num_cols = self.grid.num_cols().0;
        let col = self.cursor.col.0;
        let k = if count.0 <= num_cols - col { count.0 } else { num_cols - col };
        let old_row = self.grid.row(self.cursor.line);
        let ghost want = deleted_chars(old_row@, col as int, k as int, self.empty_cell);
        let mut row: Vec<Cell> = Vec::with_capacity(num_cols);
        let mut j: usize = 0;
        while j < num_cols
            invariant
                j <= num_cols,
                old_row@.len() == num_cols,
                col + k <= num_cols,
                want == deleted_chars(old_row@, col as int, k as int, self.empty_cell),
                row@ == want.subrange(0, j as int),
            decreases num_cols - j,
        {
            let x = if j < col {
                old_row[j]
            } else if j < num_cols - k {
                old_row[j + k]
            } else {
                self.empty_cell
            };
            row.push(x);
            j += 1;
            assert(row@ =~= want.subrange(0, j as int));
        }
        assert(row@ =~= want);
        let line = self.cursor.line;
        self.grid.replace_row(line, row);
        self.dirty = true;
    }

    /// Resets the cells `[start, end)` of the cursor's line to the empty
    /// cell.
    fn erase_range(&mut self, start: usize, end: usize)
        requires
            old(self).inv(),
            old(self)@.cursor.line.0 < lines_of(old(self)@),
            start <= end <= cols_of(old(self)@),
        ensures
            final(self).inv(),
            final(self)@ == with_cursor_row(
                old(self)@,
                erased(cursor_row(old(self)@), start as int, end as int, old(self)@.empty),
            ),
    {
        let num_cols = self.grid.num_cols().0;
        let old_row = self.grid.row(self.cursor.line);
        let ghost want = erased(old_row@, start as int, end as int, self.empty_cell);
        let mut row: Vec<Cell> = Vec::with_capacity(num_cols);
        let mut j: usize = 0;
        while j < num_cols
            invariant
                j <= num_cols,
                old_row@.len() == num_cols,
                want == erased(old_row@, start as int, end as int, self.empty_cell),
                row@ == want.subrange(0, j as int),
            decreases num_cols - j,
        {
            let x = if start <= j && j < end {
                self.empty_cell
            } else {
                old_row[j]
            };
            row.push(x);
            j += 1;
            assert(row@ =~= want.subrange(0, j as int));
        }
        assert(row@ =~= want);
        let line = self.cursor.line;
        self.grid.replace_row(line, row);
        self.dirty = true;
    }

    /// Resets `count` cells from the cursor (at most up to the end of the
    /// line) to the empty cell.
    pub fn erase_chars(&mut self, count: Column)
        requires
            old(self).inv(),
            old(self)@.cursor.line.0 < lines_of(old(self)@),
        ensures
            final(self).inv(),
            final(self)@ == with_cursor_row(
                old(self)@,
                erased(
                    cursor_row(old(self)@),
                    old(self)@.cursor.col.0 as int,
                    old(self)@.cursor.col.0 + clamp_count(old(self)@, count.0 as nat),
                    old(self)@.empty,
                ),
            ),
    {
        let num_cols = self.grid.num_cols().0;
        let start = self.cursor.col.0;
        let k = if count.0 <= num_cols - start { count.0 } else { num_cols - start };
        self.erase_range(start, start + k);
    }

    /// Resets part of the cursor's line to the empty cell: from the cursor
    /// to the end, from the start through the cursor, or all of it.
    pub fn clear_line(&mut self, mode: LineClearMode)
        requires
            old(self).inv(),
            old(self)@.cursor.line.0 < lines_of(old(self)@),
        ensures
            final(self).inv(),
            final(self)@ == with_cursor_row(
                old(self)@,
                erased(
                    cursor_row(old(self)@),
                    match mode {
                        LineClearMode::Right => old(self)@.cursor.col.0 as int,
                        _ => 0,
                    },
                    match mode {
                        LineClearMode::Left => min_nat(
                            (old(self)@.cursor.col.0 + 1) as nat,
                            cols_of(old(self)@),
                        ) as int,
                        _ => cols_of(old(self)@) as int,
                    },
                    old(self)@.empty,
                ),
            ),
    {
        let num_cols = self.grid.num_cols().0;
        let col = self.cursor.col.0;
        match mode {
            LineClearMode::Right => self.erase_range(col, num_cols),
            LineClearMode::Left => {
                let end = if col < num_cols { col + 1 } else { num_cols };
                self.erase_range(0, end)
            },
            LineClearMode::All => self.erase_range(0, num_cols),
        }
    }

    /// Resets the lines from the cursor's down, or the whole screen, to the
    /// empty cell. Clearing the part above the cursor is not supported: the
    /// precondition excludes `ClearMode::Above`, on which a caller aborts.
    pub fn clear_screen(&mut self, mode: ClearMode)
        requires
            old(self).inv(),
            mode != ClearMode::Above,
        ensures
            final(self).inv(),
            final(self)@ == (TermView {
                grid: fill_rows(
                    old(self)@.grid,
                    match mode {
                        ClearMode::Below => old(self)@.cursor.line.0 as int,
                        _ => 0,
                    },
                    lines_of(old(self)@) as int,
                    old(self)@.empty,
                ),
                dirty: true,
                ..old(self)@
            }),
    {
        let template = self.empty_cell;
        let end = self.grid.num_lines();
        match mode {
            ClearMode::Below => {
                let start = self.cursor.line;
                self.grid.clear_region(start, end, &template);
            },
            _ => {
                self.grid.clear(&template);
            },
        }
        self.dirty = true;
    }

    /// Switches between the primary and the alternate screen, each with its
    /// own cursor. The alternate screen is cleared on entry.
    pub fn swap_alt(&mut self)
        requires
            old(self).inv(),
        ensures
            final(self).inv(),
            final(self)@ == swap_alt_view(old(self)@),
    {
        self.alt = !self.alt;
        std::mem::swap(&mut self.grid, &mut self.alt_grid);
        std::mem::swap(&mut self.cursor, &mut self.alt_cursor);
        if self.alt {
            let template = self.empty_cell;
            self.grid.clear(&template);
        }
        self.dirty = true;
    }

    /// Updates the template cell, which later input is written with.
    pub fn terminal_attribute(&mut self, attr: Attr)
        requires
            old(self).inv(),
            attr_ok(attr),
        ensures
            final(self).inv(),
            final(self)@ == (TermView { template: attr_template(old(self)@, attr), dirty: true, ..old(self)@ }),
    {
        match attr {
            Attr::DefaultForeground => {
                self.template_cell.fg = self.fg;
            },
            Attr::DefaultBackground => {
                self.template_cell.bg = self.bg;
            },
            Attr::Foreground(i) => {
                self.template_cell.fg = self.colors[i as usize];
            },
            Attr::Background(i) => {
                self.template_cell.bg = self.colors[i as usize];
            },
            Attr::ForegroundSpec(rgb) => {
                self.template_cell.fg = rgb;
            },
            Attr::BackgroundSpec(rgb) => {
                self.template_cell.bg = rgb;
            },
            Attr::Reset => {
                self.template_cell.fg = self.fg;
                self.template_cell.bg = self.bg;
                self.template_cell.flags = Flags::empty();
            },
            Attr::Reverse => self.template_cell.flags.insert(INVERSE),
            Attr::CancelReverse => self.template_cell.flags.remove(INVERSE),
            Attr::Bold => self.template_cell.flags.insert(BOLD),
            Attr::CancelBold => self.template_cell.flags.remove(BOLD),
            Attr::CancelBoldDim => self.template_cell.flags.remove(BOLD),
            Attr::Italic => self.template_cell.flags.insert(ITALIC),
            Attr::CancelItalic => self.template_cell.flags.remove(ITALIC),
            Attr::Underscore => self.template_cell.flags.insert(UNDERLINE),
            Attr::CancelUnderline => self.template_cell.flags.remove(UNDERLINE),
            _ => {},
        }
        self.dirty = true;
    }

    /// Sets a mode: switches to the other screen, shows the cursor or turns
    /// on application cursor keys. Other modes are ignored.
    pub fn set_mode(&mut self, mode: Mode)
        requires
            old(self).inv(),
        ensures
            final(self).inv(),
            final(self)@ == mode_view(old(self)@, mode, true),
    {
        match mode {
            Mode::SwapScreenAndSetRestoreCursor => self.swap_alt(),
            Mode::ShowCursor => {
                self.mode.insert(SHOW_CURSOR);
                self.dirty = true;
            },
            Mode::CursorKeys => {
                self.mode.insert(APP_CURSOR);
                self.dirty = true;
            },
            _ => {},
        }
    }

    /// Unsets a mode: switches to the other screen, hides the cursor or turns
    /// off application cursor keys. Other modes are ignored.
    pub fn unset_mode(&mut self, mode: Mode)
        requires
            old(self).inv(),
        ensures
            final(self).inv(),
            final(self)@ == mode_view(old(self)@, mode, false),
    {
        match mode {
            Mode::SwapScreenAndSetRestoreCursor => self.swap_alt(),
            Mode::ShowCursor => {
                self.mode.remove(SHOW_CURSOR);
                self.dirty = true;
            },
            Mode::CursorKeys => {
                self.mode.remove(APP_CURSOR);
                self.dirty = true;
            },
            _ => {},
        }
    }

    /// Turns on application keypad mode.
    pub fn set_keypad_application_mode(&mut self)
        requires
            old(self).inv(),
        ensures
            final(self).inv(),
            final(self)@ == (TermView { mode: TermMode { bits: old(self)@.mode.bits | APP_KEYPAD }, dirty: true, ..old(self)@ }),
    {
        self.mode.insert(APP_KEYPAD);
        self.dirty = true;
    }

    /// Turns off application keypad mode.
    pub fn unset_keypad_application_mode(&mut self)
        requires
            old(self).inv(),
        ensures
            final(self).inv(),
            final(self)@ == (TermView { mode: TermMode { bits: old(self)@.mode.bits & !APP_KEYPAD }, dirty: true, ..old(self)@ }),
    {
        self.mode.remove(APP_KEYPAD);
        self.dirty = true;
    }

    /// Sets the scrolling region to the lines `[region.start, region.end)`
    /// and moves the cursor to the top left.
    pub fn set_scrolling_region(&mut self, region: Range<Line>)
        requires
            old(self).inv(),
            region.start.0 < region.end.0 <= lines_of(old(self)@),
        ensures
            final(self).inv(),
            final(self)@ == with_cursor(
                TermView { region_start: region.start.0 as nat, region_end: region.end.0 as nat, ..old(self)@ },
                0,
                0,
            ),
    {
        self.scroll_region = region;
        self.goto(Line(0), Column(0));
    }

    /// Resizes the terminal to `lines` x `cols` (a zero counts as one) and
    /// tells whether the size changed, in which case the new size is to be
    /// passed on to the pseudo-terminal.
    pub fn resize(&mut self, lines: Line, cols: Column) -> (changed: bool)
        requires
            old(self).inv(),
        ensures
            final(self).inv(),
            final(self)@ == resize_view(old(self)@, lines.0 as nat, cols.0 as nat),
            changed == (at_least_one(lines.0 as nat) != lines_of(old(self)@) || at_least_one(cols.0 as nat)
                != cols_of(old(self)@)),
    {
        let ghost v = self@;
        let num_lines = if lines.0 == 0 { Line(1) } else { lines };
        let num_cols = if cols.0 == 0 { Column(1) } else { cols };
        let old_lines = self.grid.num_lines();
        let old_cols = self.grid.num_cols();
        if old_lines.0 == num_lines.0 && old_cols.0 == num_cols.0 {
            return false;
        }
        self.scroll_to_fit(num_lines);
        self.apply_size(num_lines, num_cols);
        assert(self@ == resize_view(v, lines.0 as nat, cols.0 as nat));
        true
    }

    /// Sounds the bell; the terminal state does not change.
    pub fn bell(&mut self)
        ensures
            *final(self) == *old(self),
    {
    }

    /// Answering an identification request is not supported: no change.
    pub fn identify_terminal(&mut self)
        ensures
            *final(self) == *old(self),
    {
    }

    /// Not supported: no change.
    pub fn move_down_and_cr(&mut self, lines: Line)
        ensures
            *final(self) == *old(self),
    {
    }

    /// Not supported: no change.
    pub fn move_up_and_cr(&mut self, lines: Line)
        ensures
            *final(self) == *old(self),
    {
    }

    /// Not supported: no change.
    pub fn substitute(&mut self)
        ensures
            *final(self) == *old(self),
    {
    }

    /// Not supported: no change.
    pub fn newline(&mut self)
        ensures
            *final(self) == *old(self),
    {
    }

    /// Not supported: no change.
    pub fn set_horizontal_tabstop(&mut self)
        ensures
            *final(self) == *old(self),
    {
    }

    /// Not supported: no change.
    pub fn move_backward_tabs(&mut self, count: i64)
        ensures
            *final(self) == *old(self),
    {
    }

    /// Not supported: no change.
    pub fn move_forward_tabs(&mut self, count: i64)
        ensures
            *final(self) == *old(self),
    {
    }

    /// Not supported: no change.
    pub fn save_cursor_position(&mut self)
        ensures
            *final(self) == *old(self),
    {
    }

    /// Not supported: no change.
    pub fn restore_cursor_position(&mut self)
        ensures
            *final(self) == *old(self),
    {
    }

    /// Not supported: no change.
    pub fn clear_tabs(&mut self, mode: TabulationClearMode)
        ensures
            *final(self) == *old(self),
    {
    }

    /// Not supported: no change.
    pub fn reset_state(&mut self)
        ensures
            *final(self) == *old(self),
    {
    }

    /// Makes the scrolling region span the screen and, when the cursor lies
    /// at or below line `l`, scrolls up just enough to bring it to line
    /// `l - 1`.
    fn scroll_to_fit(&mut self, l: Line)
        requires
            old(self).inv(),
            l.0 >= 1,
        ensures
            final(self).parts_ok(),
            final(self)@ == resize_scrolled(old(self)@, l.0 as nat),
            term_wf(final(self)@),
            final(self)@.cursor.line.0 < l.0 || final(self)@.cursor.line.0 == old(self)@.cursor.line.0,
    {
        let old_lines = self.grid.num_lines();
        self.scroll_region = Range { start: Line(0), end: old_lines };
        if self.cursor.line.0 >= l.0 {
            let k = Line(self.cursor.line.0 - l.0 + 1);
            self.scroll_up(k);
            self.cursor.line = Line(self.cursor.line.0 - k.0);
        }
    }

    /// Gives both grids the size `l` x `c` and brings the rest of the state
    /// in line with it.
    #[verifier::rlimit(50)]
    fn apply_size(&mut self, l: Line, c: Column)
        requires
            old(self).parts_ok(),
            term_wf(old(self)@),
            l.0 >= 1,
            c.0 >= 1,
        ensures
            final(self).inv(),
            final(self)@ == resize_applied(old(self)@, l.0 as nat, c.0 as nat),
    {
        let ghost s = self@;
        let blank = Cell::new(' ');
        self.grid.resize(l, c, &blank);
        self.alt_grid.resize(l, c, &blank);
        self.cursor.line = Line(crate::index::limit(self.cursor.line.0, 0, l.0));
        self.cursor.col = Column(crate::index::limit(self.cursor.col.0, 0, c.0));
        self.alt_cursor.line = Line(crate::index::limit(self.alt_cursor.line.0, 0, l.0));
        self.alt_cursor.col = Column(crate::index::limit(self.alt_cursor.col.0, 0, c.0));
        self.tabs = make_tabs(c.0);
        let template = self.empty_cell;
        let start = self.cursor.line;
        self.grid.clear_region(start, l, &template);
        self.alt_grid.clear_region(start, l, &template);
        self.scroll_region = Range { start: Line(0), end: l };
        self.dirty = true;
        assert(self@ == resize_applied(s, l.0 as nat, c.0 as nat));
    }

    /// The active grid.
    pub fn grid(&self) -> (r: &Grid)
        requires
            self.inv(),
        ensures
            r.inv(),
            r@ == self@.grid,
    {
        &self.grid
    }

    /// The inactive grid.
    pub fn alt_grid(&self) -> (r: &Grid)
        requires
            self.inv(),
        ensures
            r.inv(),
            r@ == self@.alt_grid,
    {
        &self.alt_grid
    }

    /// The cursor.
    pub fn cursor(&self) -> (r: Cursor)
        ensures
            r == self@.cursor,
    {
        self.cursor
    }

    /// Whether the alternate screen is active.
    pub fn is_alt(&self) -> (r: bool)
        ensures
            r == self@.alt,
    {
        self.alt
    }

    /// The scrolling region.
    pub fn scroll_region(&self) -> (r: Range<Line>)
        ensures
            r.start.0 == self@.region_start,
            r.end.0 == self@.region_end,
    {
        Range { start: self.scroll_region.start, end: self.scroll_region.end }
    }

    /// The tab stops, one per column.
    pub fn tabs(&self) -> (r: &Vec<bool>)
        ensures
            r@ == self@.tabs,
    {
        &self.tabs
    }

    /// The cell later input is written with.
    pub fn template_cell(&self) -> (r: Cell)
        ensures
            r == self@.template,
    {
        self.template_cell
    }

    /// The cell blanks are made of.
    pub fn empty_cell(&self) -> (r: Cell)
        ensures
            r == self@.empty,
    {
        self.empty_cell
    }

    /// Swaps the colours of the cell under the cursor when the cursor is shown
    /// and on the grid, so that a frame can draw it; a second call undoes it.
    pub fn invert_cursor_cell(&mut self)
        requires
            old(self).inv(),
        ensures
            final(self).inv(),
            final(self)@ == cursor_inverted(old(self)@),
    {
        if self.mode.contains(SHOW_CURSOR) && self.grid.contains(&self.cursor) {
            let x = *self.grid.cell(self.cursor.line, self.cursor.col);
            let swapped = Cell { c: x.c, fg: x.bg, bg: x.fg, flags: x.flags };
            self.grid.set_cell(self.cursor.line, self.cursor.col, swapped);
        }
    }
}

} // verus!
