use termcore::cell::{Color, Style};
use termcore::decoder::Decoder;
use termcore::term::{CursorShape, Term};

fn fresh(rows: usize, cols: usize, max_scrollback: usize) -> Term {
    Term::new(rows, cols, max_scrollback, 8, Style::plain())
}

fn run(t: &mut Term, d: &mut Decoder, bytes: &[u8]) {
    for a in d.feed(bytes) {
        t.apply(&a);
    }
}

fn visible_text(t: &Term, row: usize, cols: usize) -> String {
    let mut s = String::new();
    for c in 0..cols {
        s.push(t.snapshot_cell(row, c).ch);
    }
    s
}

#[test]
fn clear_display_and_home_cursor() {
    let mut t = fresh(4, 10, 0);
    let mut d = Decoder::new();
    run(&mut t, &mut d, b"some text");
    run(&mut t, &mut d, b"\x1b[2J\x1b[H");
    for r in 0..4 {
        assert_eq!(visible_text(&t, r, 10), " ".repeat(10));
    }
    assert_eq!((t.cursor.row, t.cursor.col), (0, 0));
}

#[test]
fn printing_advances_the_cursor_and_fills_cells() {
    let mut t = fresh(3, 8, 0);
    let mut d = Decoder::new();
    run(&mut t, &mut d, b"Hi!");
    assert_eq!(visible_text(&t, 0, 8), "Hi!     ");
    assert_eq!((t.cursor.row, t.cursor.col), (0, 3));
}

#[test]
fn printing_to_the_last_column_leaves_the_wrap_pending() {
    let mut t = fresh(2, 4, 0);
    let mut d = Decoder::new();
    run(&mut t, &mut d, b"abcd");
    assert_eq!(visible_text(&t, 0, 4), "abcd");
    assert_eq!((t.cursor.row, t.cursor.col), (0, 3));
    run(&mut t, &mut d, b"e");
    assert_eq!(visible_text(&t, 1, 4), "e   ");
    assert_eq!((t.cursor.row, t.cursor.col), (1, 1));
    assert!(t.active.lines[0].wrapped);
}

#[test]
fn erase_display_twice_is_the_same_as_once() {
    let mut t = fresh(3, 6, 4);
    let mut d = Decoder::new();
    run(&mut t, &mut d, b"abc\r\ndef");
    run(&mut t, &mut d, b"\x1b[2J");
    let once: Vec<String> = (0..3).map(|r| visible_text(&t, r, 6)).collect();
    let cursor_once = t.cursor;
    run(&mut t, &mut d, b"\x1b[2J");
    let twice: Vec<String> = (0..3).map(|r| visible_text(&t, r, 6)).collect();
    assert_eq!(once, twice);
    assert_eq!(cursor_once, t.cursor);
}

#[test]
fn scrolled_lines_enter_the_scrollback_in_order() {
    let mut t = fresh(2, 4, 10);
    let mut d = Decoder::new();
    run(&mut t, &mut d, b"one\r\ntwo\r\nthr\r\nfou");
    // Two rows are visible; the earlier lines moved into history in order.
    assert_eq!(t.active.scrollback.len(), 2);
    let h0: String = t.active.scrollback[0].cells.iter().map(|c| c.ch).collect();
    let h1: String = t.active.scrollback[1].cells.iter().map(|c| c.ch).collect();
    assert_eq!(h0, "one ");
    assert_eq!(h1, "two ");
    assert_eq!(visible_text(&t, 0, 4), "thr ");
    assert_eq!(visible_text(&t, 1, 4), "fou ");
}

#[test]
fn scrollback_is_bounded_and_evicts_the_oldest_first() {
    let mut t = fresh(2, 4, 2);
    let mut d = Decoder::new();
    run(&mut t, &mut d, b"a\r\nb\r\nc\r\nd\r\ne");
    // Five lines written, three scrolled off, only the last two kept.
    assert_eq!(t.active.scrollback.len(), 2);
    let h0: String = t.active.scrollback[0].cells.iter().map(|c| c.ch).collect();
    let h1: String = t.active.scrollback[1].cells.iter().map(|c| c.ch).collect();
    assert_eq!(h0, "b   ");
    assert_eq!(h1, "c   ");
}

#[test]
fn alternate_screen_restores_the_primary_content() {
    let mut t = fresh(3, 8, 4);
    let mut d = Decoder::new();
    run(&mut t, &mut d, b"primary");
    let before: Vec<String> = (0..3).map(|r| visible_text(&t, r, 8)).collect();
    let cursor_before = t.cursor;
    run(&mut t, &mut d, b"\x1b[?1049h");
    assert!(t.modes.alt_screen);
    assert_eq!(visible_text(&t, 0, 8), " ".repeat(8));
    run(&mut t, &mut d, b"\x1b[HALT SCRN");
    run(&mut t, &mut d, b"\x1b[?1049l");
    assert!(!t.modes.alt_screen);
    let after: Vec<String> = (0..3).map(|r| visible_text(&t, r, 8)).collect();
    assert_eq!(before, after);
    assert_eq!(cursor_before, t.cursor);
}

#[test]
fn wide_character_at_the_last_column_wraps_whole() {
    let mut t = fresh(3, 4, 0);
    let mut d = Decoder::new();
    run(&mut t, &mut d, b"abc");
    run(&mut t, &mut d, "中".as_bytes());
    // No room for two columns at column 3: the glyph moves to the next
    // line whole instead of splitting.
    assert_eq!(t.snapshot_cell(0, 3).ch, ' ');
    assert_eq!(t.snapshot_cell(1, 0).ch, '中');
    assert!(t.snapshot_cell(1, 0).flags.wide);
    assert!(t.snapshot_cell(1, 1).flags.wide_spacer);
    assert!(t.active.lines[0].wrapped);
}

#[test]
fn resize_to_the_same_dimensions_changes_nothing() {
    let mut t = fresh(3, 8, 4);
    let mut d = Decoder::new();
    run(&mut t, &mut d, b"hello\r\nworld");
    let before: Vec<String> = (0..3).map(|r| visible_text(&t, r, 8)).collect();
    let cursor_before = t.cursor;
    t.resize(3, 8);
    let after: Vec<String> = (0..3).map(|r| visible_text(&t, r, 8)).collect();
    assert_eq!(before, after);
    assert_eq!(cursor_before, t.cursor);
}

#[test]
fn resize_narrower_cuts_lines_on_the_right() {
    let mut t = fresh(2, 8, 0);
    let mut d = Decoder::new();
    run(&mut t, &mut d, b"abcdefgh");
    t.resize(2, 4);
    assert_eq!(visible_text(&t, 0, 4), "abcd");
}

#[test]
fn resize_taller_pulls_lines_back_from_the_scrollback() {
    let mut t = fresh(2, 4, 10);
    let mut d = Decoder::new();
    run(&mut t, &mut d, b"one\r\ntwo\r\nthr\r\nfou");
    assert_eq!(t.active.scrollback.len(), 2);
    t.resize(4, 4);
    assert_eq!(t.active.scrollback.len(), 0);
    assert_eq!(visible_text(&t, 0, 4), "one ");
    assert_eq!(visible_text(&t, 1, 4), "two ");
    assert_eq!(visible_text(&t, 2, 4), "thr ");
    assert_eq!(visible_text(&t, 3, 4), "fou ");
}

#[test]
fn cursor_movement_sequences_clamp() {
    let mut t = fresh(4, 10, 0);
    let mut d = Decoder::new();
    run(&mut t, &mut d, b"\x1b[2;3H");
    assert_eq!((t.cursor.row, t.cursor.col), (1, 2));
    run(&mut t, &mut d, b"\x1b[99A");
    assert_eq!(t.cursor.row, 0);
    run(&mut t, &mut d, b"\x1b[99C");
    assert_eq!(t.cursor.col, 9);
    run(&mut t, &mut d, b"\x1b[2D");
    assert_eq!(t.cursor.col, 7);
    run(&mut t, &mut d, b"\x1b[99B");
    assert_eq!(t.cursor.row, 3);
}

#[test]
fn tab_advances_to_the_next_stop() {
    let mut t = fresh(2, 20, 0);
    let mut d = Decoder::new();
    run(&mut t, &mut d, b"a\t");
    assert_eq!(t.cursor.col, 8);
    run(&mut t, &mut d, b"\t");
    assert_eq!(t.cursor.col, 16);
    run(&mut t, &mut d, b"\t");
    assert_eq!(t.cursor.col, 19);
}

#[test]
fn erase_in_line_respects_its_mode() {
    let mut t = fresh(1, 6, 0);
    let mut d = Decoder::new();
    run(&mut t, &mut d, b"abcdef");
    run(&mut t, &mut d, b"\x1b[4G\x1b[0K");
    assert_eq!(visible_text(&t, 0, 6), "abc   ");
    run(&mut t, &mut d, b"abc\x1b[2G\x1b[1K");
    assert_eq!(visible_text(&t, 0, 6), "  cabc");
}

#[test]
fn sgr_sets_the_pen_and_printed_cells_carry_it() {
    let mut t = fresh(1, 8, 0);
    let mut d = Decoder::new();
    run(&mut t, &mut d, b"\x1b[1;31mX");
    let cell = t.snapshot_cell(0, 0);
    assert!(cell.flags.bold);
    assert_eq!(cell.fg, Color::Indexed(1));
    run(&mut t, &mut d, b"\x1b[0mY");
    let cell = t.snapshot_cell(0, 1);
    assert!(!cell.flags.bold);
    assert_eq!(cell.fg, Color::Default);
}

#[test]
fn sgr_256_color_selection() {
    let mut t = fresh(1, 8, 0);
    let mut d = Decoder::new();
    run(&mut t, &mut d, b"\x1b[38;5;196mZ");
    assert_eq!(t.snapshot_cell(0, 0).fg, Color::Indexed(196));
}

#[test]
fn erase_uses_the_pen_background_not_the_default() {
    let mut t = fresh(1, 4, 0);
    let mut d = Decoder::new();
    run(&mut t, &mut d, b"\x1b[44m\x1b[2J");
    assert_eq!(t.snapshot_cell(0, 0).bg, Color::Indexed(4));
}

#[test]
fn scrolling_region_limits_the_scroll() {
    let mut t = fresh(4, 4, 10);
    let mut d = Decoder::new();
    run(&mut t, &mut d, b"aaa\r\nbbb\r\nccc\r\nddd");
    // Region rows 2..3 (one-based): feed at its bottom scrolls only it.
    run(&mut t, &mut d, b"\x1b[2;3r\x1b[3;1Hnew\n");
    assert_eq!(visible_text(&t, 0, 4), "aaa ");
    assert_eq!(visible_text(&t, 1, 4), "new ");
    assert_eq!(visible_text(&t, 2, 4), "    ");
    assert_eq!(visible_text(&t, 3, 4), "ddd ");
    // A region that does not start at the top of the screen feeds no
    // scrollback.
    assert!(t.active.scrollback.is_empty());
}

#[test]
fn osc_sets_the_title_and_reading_takes_it() {
    let mut t = fresh(2, 8, 0);
    let mut d = Decoder::new();
    run(&mut t, &mut d, b"\x1b]2;hello\x07");
    assert_eq!(t.take_title(), Some(b"hello".to_vec()));
    assert_eq!(t.take_title(), None);
}

#[test]
fn bell_is_remembered_until_read() {
    let mut t = fresh(2, 8, 0);
    let mut d = Decoder::new();
    run(&mut t, &mut d, b"\x07");
    assert!(t.take_bell());
    assert!(!t.take_bell());
}

#[test]
fn dirty_flag_tracks_mutation_and_reading_clears_it() {
    let mut t = fresh(2, 8, 0);
    let mut d = Decoder::new();
    assert!(!t.take_dirty());
    run(&mut t, &mut d, b"x");
    assert!(t.take_dirty());
    assert!(!t.take_dirty());
}

#[test]
fn unknown_sequences_are_ignored_without_corruption() {
    let mut t = fresh(2, 8, 0);
    let mut d = Decoder::new();
    run(&mut t, &mut d, b"A\x1bBC");
    // The unrecognised two-byte escape is dropped; A and C both print.
    assert_eq!(visible_text(&t, 0, 8), "AC      ");
    run(&mut t, &mut d, b"\x1b[999;999;1;2;3~\x1b[>c");
    assert_eq!(visible_text(&t, 0, 8), "AC      ");
}

#[test]
fn save_and_restore_cursor() {
    let mut t = fresh(4, 10, 0);
    let mut d = Decoder::new();
    run(&mut t, &mut d, b"\x1b[2;5H\x1b7\x1b[H");
    assert_eq!((t.cursor.row, t.cursor.col), (0, 0));
    run(&mut t, &mut d, b"\x1b8");
    assert_eq!((t.cursor.row, t.cursor.col), (1, 4));
}

#[test]
fn origin_mode_addresses_relative_to_the_region() {
    let mut t = fresh(6, 10, 0);
    let mut d = Decoder::new();
    run(&mut t, &mut d, b"\x1b[3;5r\x1b[?6h\x1b[1;1H");
    assert_eq!((t.cursor.row, t.cursor.col), (2, 0));
}

#[test]
fn cursor_style_sequence_changes_the_shape() {
    let mut t = fresh(2, 8, 0);
    let mut d = Decoder::new();
    assert_eq!(t.cursor_shape, CursorShape::Block);
    run(&mut t, &mut d, b"\x1b[4 q");
    assert_eq!(t.cursor_shape, CursorShape::Underline);
    run(&mut t, &mut d, b"\x1b[6 q");
    assert_eq!(t.cursor_shape, CursorShape::Beam);
    run(&mut t, &mut d, b"\x1b[0 q");
    assert_eq!(t.cursor_shape, CursorShape::Block);
}

#[test]
fn reverse_index_scrolls_down_at_the_region_top() {
    let mut t = fresh(3, 4, 0);
    let mut d = Decoder::new();
    run(&mut t, &mut d, b"top\r\nmid\r\nbot\x1b[H\x1bM");
    assert_eq!(visible_text(&t, 0, 4), "    ");
    assert_eq!(visible_text(&t, 1, 4), "top ");
    assert_eq!(visible_text(&t, 2, 4), "mid ");
}
