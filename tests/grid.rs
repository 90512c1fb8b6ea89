use alacritty::cell::Cell;
use alacritty::grid::Grid;
use alacritty::index::{Column, Line};

fn grid_of(rows: &[&str]) -> Grid {
    let mut g = Grid::new(Line(rows.len()), Column(rows[0].len()), &Cell::new(' '));
    for (l, r) in rows.iter().enumerate() {
        for (c, ch) in r.chars().enumerate() {
            g.set_cell(Line(l), Column(c), Cell::new(ch));
        }
    }
    g
}

fn text(g: &Grid) -> Vec<String> {
    (0..g.num_lines().0).map(|l| g.row(Line(l)).iter().map(|c| c.c).collect()).collect()
}

#[test]
fn grid_scroll_up_rotates_range() {
    let mut g = grid_of(&["a", "b", "c", "d", "e"]);
    g.scroll_up(Line(1), Line(4), Line(1));
    assert_eq!(text(&g), vec!["a", "c", "d", "b", "e"]);
}

#[test]
fn grid_scroll_down_rotates_range() {
    let mut g = grid_of(&["a", "b", "c", "d", "e"]);
    g.scroll_down(Line(0), Line(4), Line(2));
    assert_eq!(text(&g), vec!["c", "d", "a", "b", "e"]);
}

#[test]
fn grid_clear_region_and_clear() {
    let mut g = grid_of(&["ab", "cd", "ef"]);
    g.clear_region(Line(1), Line(2), &Cell::new('.'));
    assert_eq!(text(&g), vec!["ab", "..", "ef"]);
    g.clear(&Cell::new('x'));
    assert_eq!(text(&g), vec!["xx", "xx", "xx"]);
}

#[test]
fn grid_resize_keeps_top_left() {
    let mut g = grid_of(&["abc", "def"]);
    g.resize(Line(3), Column(2), &Cell::new('-'));
    assert_eq!(text(&g), vec!["ab", "de", "--"]);
    g.resize(Line(1), Column(4), &Cell::new('+'));
    assert_eq!(text(&g), vec!["ab++"]);
    assert_eq!((g.num_lines(), g.num_cols()), (Line(1), Column(4)));
}

#[test]
fn cell_reset_copies_template() {
    let mut c = Cell::new('a');
    let mut t = Cell::new('z');
    t.flags.insert(alacritty::cell::ITALIC);
    c.reset(&t);
    assert_eq!(c, t);
    assert!(c.flags.contains(alacritty::cell::ITALIC));
    c.flags.remove(alacritty::cell::ITALIC);
    assert_eq!(c.flags.bits, 0);
}
