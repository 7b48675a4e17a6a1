use termcore::cell::{blank_cell, Cell, Color, Flags};
use termcore::grid::Grid;

fn cell(ch: char) -> Cell {
    Cell {
        ch,
        fg: Color::Default,
        bg: Color::Default,
        flags: Flags::clear(),
    }
}

#[test]
fn a_fresh_grid_is_blank() {
    let g = Grid::new(2, 3, 5, Color::Default);
    for r in 0..2 {
        for c in 0..3 {
            assert_eq!(g.get(r, c), blank_cell(Color::Default));
        }
    }
    assert!(g.scrollback.is_empty());
}

#[test]
fn reads_out_of_bounds_clamp() {
    let mut g = Grid::new(2, 3, 0, Color::Default);
    g.set(1, 2, cell('x'));
    assert_eq!(g.get(99, 99).ch, 'x');
}

#[test]
fn scroll_up_captures_the_top_line() {
    let mut g = Grid::new(3, 2, 4, Color::Default);
    g.set(0, 0, cell('a'));
    g.set(1, 0, cell('b'));
    g.scroll_up(0, 2, 1, true, Color::Default);
    assert_eq!(g.get(0, 0).ch, 'b');
    assert_eq!(g.get(2, 0).ch, ' ');
    assert_eq!(g.scrollback.len(), 1);
    assert_eq!(g.scrollback[0].cells[0].ch, 'a');
}

#[test]
fn scroll_up_evicts_the_oldest_when_full() {
    let mut g = Grid::new(2, 1, 2, Color::Default);
    for ch in ['a', 'b', 'c', 'd'] {
        g.set(0, 0, cell(ch));
        g.scroll_up(0, 1, 1, true, Color::Default);
    }
    assert_eq!(g.scrollback.len(), 2);
    assert_eq!(g.scrollback[0].cells[0].ch, 'c');
    assert_eq!(g.scrollback[1].cells[0].ch, 'd');
}

#[test]
fn scroll_down_discards_the_bottom_line() {
    let mut g = Grid::new(3, 1, 4, Color::Default);
    g.set(0, 0, cell('a'));
    g.set(2, 0, cell('z'));
    g.scroll_down(0, 2, 1, Color::Default);
    assert_eq!(g.get(0, 0).ch, ' ');
    assert_eq!(g.get(1, 0).ch, 'a');
    assert!(g.scrollback.is_empty());
}

#[test]
fn resize_wider_pads_with_blanks() {
    let mut g = Grid::new(1, 2, 0, Color::Default);
    g.set(0, 0, cell('a'));
    g.resize(1, 4, Color::Default);
    assert_eq!(g.get(0, 0).ch, 'a');
    assert_eq!(g.get(0, 3).ch, ' ');
    assert_eq!(g.cols, 4);
}

#[test]
fn erase_rows_clears_cells_and_wrapped_flags() {
    let mut g = Grid::new(2, 2, 0, Color::Indexed(3));
    g.set(0, 0, cell('a'));
    g.set_wrapped(0, true);
    g.erase_rows(0, 2, Color::Indexed(3));
    assert_eq!(g.get(0, 0).ch, ' ');
    assert_eq!(g.get(0, 0).bg, Color::Indexed(3));
    assert!(!g.lines[0].wrapped);
}
