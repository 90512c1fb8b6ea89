use alacritty::cell::{Cell, Rgb, BOLD};
use alacritty::grid::Grid;
use alacritty::index::{Column, Cursor, Line};
use alacritty::term::{Attr, ClearMode, LineClearMode, Mode, Term, APP_KEYPAD, SHOW_CURSOR};

fn term(lines: usize, cols: usize) -> Term {
    Term::new(Rgb::default(), Rgb::default(), [Rgb::default(); 16], Line(lines), Column(cols))
}

fn row_text(g: &Grid, line: usize) -> String {
    g.row(Line(line)).iter().map(|c| c.c).collect()
}

fn rows(t: &Term) -> Vec<String> {
    (0..t.lines().0).map(|l| row_text(t.grid(), l)).collect()
}

fn write(t: &mut Term, s: &str) {
    for c in s.chars() {
        t.input(c);
    }
}

fn fill(t: &mut Term, texts: &[&str]) {
    for (l, s) in texts.iter().enumerate() {
        t.goto(Line(l), Column(0));
        write(t, s);
    }
}

fn cursor(t: &Term) -> (usize, usize) {
    let c = t.cursor();
    (c.line.0, c.col.0)
}

#[test]
fn new_term_has_size_tabs_and_region() {
    let t = term(4, 20);
    assert_eq!(t.lines(), Line(4));
    assert_eq!(t.cols(), Column(20));
    assert_eq!(rows(&t), vec![" ".repeat(20); 4]);
    let tabs = t.tabs();
    assert_eq!(tabs.len(), 20);
    assert!(!tabs[0]);
    for i in 1..20 {
        assert_eq!(tabs[i], i % 8 == 0);
    }
    let r = t.scroll_region();
    assert_eq!((r.start, r.end), (Line(0), Line(4)));
    assert_eq!(cursor(&t), (0, 0));
    assert!(t.mode().contains(SHOW_CURSOR));
    assert!(t.dirty);
}

#[test]
fn zero_size_counts_as_one() {
    let t = term(0, 0);
    assert_eq!((t.lines(), t.cols()), (Line(1), Column(1)));
}

#[test]
fn scenario_two_lines_of_text() {
    let mut t = term(4, 4);
    t.input('A');
    t.input('B');
    t.carriage_return();
    t.linefeed();
    t.input('C');
    t.input('D');
    assert_eq!(row_text(t.grid(), 0), "AB  ");
    assert_eq!(row_text(t.grid(), 1), "CD  ");
    assert_eq!(cursor(&t), (1, 2));
}

#[test]
fn scenario_wrap_at_bottom_scrolls() {
    let mut t = term(3, 3);
    t.goto(Line(2), Column(0));
    write(&mut t, "XYZW");
    assert_eq!(rows(&t), vec!["   ", "XYZ", "W  "]);
    assert_eq!(cursor(&t), (2, 1));
}

#[test]
fn scenario_linefeed_in_scrolling_region() {
    let mut t = term(4, 4);
    fill(&mut t, &["AAAA", "BBBB", "CCCC", "DDDD"]);
    t.set_scrolling_region(Line(1)..Line(3));
    assert_eq!(cursor(&t), (0, 0));
    t.goto(Line(2), Column(0));
    t.linefeed();
    assert_eq!(rows(&t), vec!["AAAA", "CCCC", "    ", "DDDD"]);
    assert_eq!(cursor(&t), (2, 0));
}

#[test]
fn scenario_insert_blank() {
    let mut t = term(4, 4);
    fill(&mut t, &["ABCD"]);
    t.goto(Line(0), Column(1));
    t.insert_blank(Column(2));
    assert_eq!(row_text(t.grid(), 0), "A  B");
    assert_eq!(*t.grid().cell(Line(0), Column(1)), t.empty_cell());
    assert_eq!(*t.grid().cell(Line(0), Column(2)), t.empty_cell());
}

#[test]
fn scenario_alternate_screen_keeps_primary() {
    let mut t = term(4, 4);
    fill(&mut t, &["ABCD", "EF"]);
    let before = rows(&t);
    let pos = cursor(&t);
    t.swap_alt();
    assert!(t.is_alt());
    t.input('X');
    t.swap_alt();
    assert!(!t.is_alt());
    assert_eq!(rows(&t), before);
    assert_eq!(cursor(&t), pos);
    assert_eq!(t.alt_grid().cell(Line(0), Column(0)).c, 'X');
}

#[test]
fn scenario_resize_below_cursor_scrolls() {
    let mut t = term(4, 4);
    fill(&mut t, &["AAAA", "BBBB", "CCCC", "DDDD"]);
    t.goto(Line(3), Column(0));
    assert!(t.resize(Line(2), Column(4)));
    assert_eq!(t.lines(), Line(2));
    assert_eq!(cursor(&t), (1, 0));
    assert_eq!(row_text(t.grid(), 0), "CCCC");
    assert_eq!(row_text(t.grid(), 1), "    ");
}

#[test]
fn swap_alt_twice_restores_primary() {
    let mut t = term(3, 5);
    fill(&mut t, &["hello", "world"]);
    t.goto(Line(1), Column(3));
    let before = rows(&t);
    t.swap_alt();
    t.swap_alt();
    assert_eq!(rows(&t), before);
    assert_eq!(cursor(&t), (1, 3));
}

#[test]
fn carriage_return_then_spaces_writes_template() {
    let mut t = term(2, 6);
    fill(&mut t, &["abcdef"]);
    t.goto(Line(0), Column(4));
    t.terminal_attribute(Attr::Bold);
    t.carriage_return();
    write(&mut t, "   ");
    let mut want = t.template_cell();
    want.c = ' ';
    for j in 0..3 {
        assert_eq!(*t.grid().cell(Line(0), Column(j)), want);
    }
    assert_eq!(row_text(t.grid(), 0), "   def");
}

#[test]
fn insert_blank_then_delete_chars_keeps_line() {
    let mut t = term(2, 6);
    fill(&mut t, &["abcdef", "ghijkl"]);
    t.goto(Line(0), Column(2));
    t.insert_blank(Column(2));
    assert_eq!(row_text(t.grid(), 0), "ab  cd");
    t.delete_chars(Column(2));
    assert_eq!(row_text(t.grid(), 0), "abcd  ");
    assert_eq!(row_text(t.grid(), 1), "ghijkl");
}

#[test]
fn insert_and_delete_clamp_to_line_end() {
    let mut t = term(1, 4);
    fill(&mut t, &["abcd"]);
    t.goto(Line(0), Column(1));
    t.insert_blank(Column(10));
    assert_eq!(row_text(t.grid(), 0), "a   ");
    fill(&mut t, &["abcd"]);
    t.goto(Line(0), Column(2));
    t.delete_chars(Column(10));
    assert_eq!(row_text(t.grid(), 0), "ab  ");
    t.goto(Line(0), Column(1));
    t.delete_chars(Column(1));
    assert_eq!(row_text(t.grid(), 0), "a   ");
}

#[test]
fn scroll_up_then_down_keeps_lower_region() {
    let mut t = term(5, 2);
    fill(&mut t, &["aa", "bb", "cc", "dd", "ee"]);
    t.set_scrolling_region(Line(1)..Line(4));
    t.scroll_up(Line(1));
    assert_eq!(rows(&t), vec!["aa", "cc", "dd", "  ", "ee"]);
    t.scroll_down(Line(1));
    assert_eq!(rows(&t), vec!["aa", "  ", "cc", "dd", "ee"]);
}

#[test]
fn scroll_by_more_than_region_blanks_region() {
    let mut t = term(4, 2);
    fill(&mut t, &["aa", "bb", "cc", "dd"]);
    t.set_scrolling_region(Line(1)..Line(3));
    t.scroll_up(Line(9));
    assert_eq!(rows(&t), vec!["aa", "  ", "  ", "dd"]);
}

#[test]
fn resize_twice_is_no_change() {
    let mut t = term(4, 4);
    fill(&mut t, &["abcd", "efgh"]);
    t.goto(Line(1), Column(2));
    assert!(t.resize(Line(3), Column(6)));
    let after = rows(&t);
    let pos = cursor(&t);
    t.dirty = false;
    assert!(!t.resize(Line(3), Column(6)));
    assert_eq!(rows(&t), after);
    assert_eq!(cursor(&t), pos);
    assert!(!t.dirty);
    assert_eq!(after, vec!["abcd  ", "      ", "      "]);
    assert_eq!(t.tabs().len(), 6);
}

#[test]
fn resize_grows_with_blank_cells() {
    let mut t = term(2, 2);
    fill(&mut t, &["ab", "cd"]);
    t.goto(Line(2), Column(0));
    assert!(t.resize(Line(3), Column(3)));
    assert_eq!(rows(&t), vec!["ab ", "cd ", "   "]);
    let r = t.scroll_region();
    assert_eq!((r.start, r.end), (Line(0), Line(3)));
}

#[test]
fn writing_last_column_leaves_pending_wrap() {
    let mut t = term(2, 3);
    t.goto(Line(0), Column(2));
    t.input('x');
    assert_eq!(cursor(&t), (0, 3));
    t.input('y');
    assert_eq!(cursor(&t), (1, 1));
    assert_eq!(t.grid().cell(Line(1), Column(0)).c, 'y');
    assert_eq!(row_text(t.grid(), 0), "  x");
}

#[test]
fn move_backward_stops_at_first_column() {
    let mut t = term(2, 5);
    t.move_backward(Column(3));
    assert_eq!(cursor(&t), (0, 0));
    t.goto(Line(1), Column(2));
    t.move_backward(Column(5));
    assert_eq!(cursor(&t), (1, 0));
    t.backspace();
    assert_eq!(cursor(&t), (1, 0));
}

#[test]
fn linefeed_at_region_bottom_scrolls() {
    let mut t = term(3, 1);
    fill(&mut t, &["a", "b", "c"]);
    t.goto(Line(2), Column(0));
    t.linefeed();
    assert_eq!(cursor(&t), (2, 0));
    assert_eq!(rows(&t), vec!["b", "c", " "]);
    t.goto(Line(0), Column(0));
    t.linefeed();
    assert_eq!(cursor(&t), (1, 0));
}

#[test]
fn reverse_index_at_region_top_scrolls_down() {
    let mut t = term(3, 1);
    fill(&mut t, &["a", "b", "c"]);
    t.goto(Line(0), Column(0));
    t.reverse_index();
    assert_eq!(rows(&t), vec![" ", "a", "b"]);
    assert_eq!(cursor(&t), (0, 0));
    t.goto(Line(2), Column(0));
    t.reverse_index();
    assert_eq!(cursor(&t), (1, 0));
}

#[test]
fn relative_moves() {
    let mut t = term(5, 5);
    t.move_down(Line(3));
    t.move_forward(Column(4));
    assert_eq!(cursor(&t), (3, 4));
    t.move_up(Line(10));
    assert_eq!(cursor(&t), (0, 4));
    t.goto_line(Line(2));
    t.goto_col(Column(1));
    assert_eq!(cursor(&t), (2, 1));
}

#[test]
fn put_tab_goes_to_next_stop() {
    let mut t = term(1, 20);
    t.goto_col(Column(3));
    t.put_tab(1);
    assert_eq!(cursor(&t), (0, 8));
    t.goto_col(Column(17));
    t.put_tab(1);
    assert_eq!(cursor(&t), (0, 20));
    t.goto_col(Column(3));
    t.put_tab(0);
    assert_eq!(cursor(&t), (0, 3));
}

#[test]
fn insert_and_delete_lines() {
    let mut t = term(4, 1);
    fill(&mut t, &["a", "b", "c", "d"]);
    t.goto(Line(1), Column(0));
    t.insert_blank_lines(Line(1));
    assert_eq!(rows(&t), vec!["a", " ", "b", "c"]);
    t.delete_lines(Line(2));
    assert_eq!(rows(&t), vec!["a", "c", " ", " "]);
}

#[test]
fn erase_and_clear_line() {
    let mut t = term(1, 6);
    fill(&mut t, &["abcdef"]);
    t.goto(Line(0), Column(1));
    t.erase_chars(Column(2));
    assert_eq!(row_text(t.grid(), 0), "a  def");
    t.goto(Line(0), Column(4));
    t.clear_line(LineClearMode::Right);
    assert_eq!(row_text(t.grid(), 0), "a  d  ");
    fill(&mut t, &["abcdef"]);
    t.goto(Line(0), Column(2));
    t.clear_line(LineClearMode::Left);
    assert_eq!(row_text(t.grid(), 0), "   def");
    t.clear_line(LineClearMode::All);
    assert_eq!(row_text(t.grid(), 0), "      ");
}

#[test]
fn clear_screen_below_and_all() {
    let mut t = term(3, 2);
    fill(&mut t, &["aa", "bb", "cc"]);
    t.goto(Line(1), Column(1));
    t.clear_screen(ClearMode::Below);
    assert_eq!(rows(&t), vec!["aa", "  ", "  "]);
    t.clear_screen(ClearMode::All);
    assert_eq!(rows(&t), vec!["  ", "  ", "  "]);
}

#[test]
fn attributes_change_template() {
    let mut colors = [Rgb::default(); 16];
    colors[3] = Rgb { r: 1, g: 2, b: 3 };
    let fg = Rgb { r: 200, g: 200, b: 200 };
    let bg = Rgb { r: 10, g: 10, b: 10 };
    let mut t = Term::new(fg, bg, colors, Line(2), Column(2));
    t.terminal_attribute(Attr::Foreground(3));
    assert_eq!(t.template_cell().fg, Rgb { r: 1, g: 2, b: 3 });
    t.terminal_attribute(Attr::BackgroundSpec(Rgb { r: 9, g: 8, b: 7 }));
    assert_eq!(t.template_cell().bg, Rgb { r: 9, g: 8, b: 7 });
    t.terminal_attribute(Attr::Bold);
    assert!(t.template_cell().flags.contains(BOLD));
    t.input('z');
    let cell: Cell = *t.grid().cell(Line(0), Column(0));
    assert_eq!(cell.c, 'z');
    assert_eq!(cell.fg, Rgb { r: 1, g: 2, b: 3 });
    t.terminal_attribute(Attr::CancelBoldDim);
    assert!(!t.template_cell().flags.contains(BOLD));
    t.terminal_attribute(Attr::Reset);
    assert_eq!(t.template_cell().fg, fg);
    assert_eq!(t.template_cell().bg, bg);
    assert_eq!(t.template_cell().flags.bits, 0);
}

#[test]
fn modes_set_and_unset() {
    let mut t = term(2, 2);
    t.unset_mode(Mode::ShowCursor);
    assert!(!t.mode().contains(SHOW_CURSOR));
    t.set_mode(Mode::ShowCursor);
    assert!(t.mode().contains(SHOW_CURSOR));
    t.set_keypad_application_mode();
    assert!(t.mode().contains(APP_KEYPAD));
    t.unset_keypad_application_mode();
    assert!(!t.mode().contains(APP_KEYPAD));
    t.set_mode(Mode::SwapScreenAndSetRestoreCursor);
    assert!(t.is_alt());
    t.unset_mode(Mode::SwapScreenAndSetRestoreCursor);
    assert!(!t.is_alt());
}

#[test]
fn cursor_cell_inverted_and_restored() {
    let mut t = term(2, 2);
    let fg = Rgb { r: 5, g: 5, b: 5 };
    t.terminal_attribute(Attr::ForegroundSpec(fg));
    t.input('q');
    t.goto(Line(0), Column(0));
    t.invert_cursor_cell();
    let c = *t.grid().cell(Line(0), Column(0));
    assert_eq!((c.fg, c.bg), (Rgb::default(), fg));
    t.invert_cursor_cell();
    let c = *t.grid().cell(Line(0), Column(0));
    assert_eq!((c.fg, c.bg), (fg, Rgb::default()));
    assert!(t.grid().contains(&Cursor { line: Line(1), col: Column(1) }));
    assert!(!t.grid().contains(&Cursor { line: Line(2), col: Column(0) }));
}

#[test]
fn unsupported_operations_change_nothing() {
    let mut t = term(2, 2);
    write(&mut t, "ab");
    let before = rows(&t);
    t.identify_terminal();
    t.newline();
    t.substitute();
    t.bell();
    t.save_cursor_position();
    t.restore_cursor_position();
    t.reset_state();
    assert_eq!(rows(&t), before);
    assert_eq!(cursor(&t), (0, 2));
}

#[test]
fn saturating_index_arithmetic() {
    assert_eq!(Line(2).saturating_sub(Line(5)), Line(0));
    assert_eq!(Line(7).saturating_sub(Line(5)), Line(2));
    assert_eq!(Column(3).saturating_add(Column(4)), Column(7));
    assert_eq!(Column(usize::MAX).saturating_add(Column(1)), Column(usize::MAX));
    assert_eq!(alacritty::index::limit(9, 0, 4), 4);
    assert_eq!(alacritty::index::limit(2, 0, 4), 2);
}

#[test]
fn cancel_bold_clears_bold() {
    let mut t = term(1, 1);
    t.terminal_attribute(Attr::Bold);
    assert!(t.template_cell().flags.contains(BOLD));
    t.terminal_attribute(Attr::CancelBold);
    assert!(!t.template_cell().flags.contains(BOLD));
}

#[test]
fn large_relative_moves_stop_at_edge() {
    let mut t = term(4, 5);
    t.goto(Line(1), Column(2));
    t.move_down(Line(999));
    assert_eq!(cursor(&t), (4, 2));
    t.move_forward(Column(usize::MAX));
    assert_eq!(cursor(&t), (4, 5));
}
