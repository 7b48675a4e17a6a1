//! The terminal state machine: applies decoded actions, one at a time and
//! in order, to the grid, the cursor, the modes, the scrolling region and
//! the tab stops.

use vstd::prelude::*;
use crate::cell::{blank_cell_spec, Cell, Color, Flags, Style};
use crate::decoder::{bytes_view, Action, ActionV};
use crate::grid::{pushed_history, Grid};

verus! {

/// The boolean terminal modes, each toggled by its own sequence.
#[derive(Clone, Copy, PartialEq, Eq, Structural, Debug)]
pub struct Modes {
    /// Printing past the last column moves to the next line.
    pub auto_wrap: bool,
    /// Cursor addressing is relative to the scrolling region.
    pub origin: bool,
    /// Arrow keys send application sequences.
    pub app_cursor: bool,
    /// Pasted text is wrapped in paste markers.
    pub bracketed_paste: bool,
    /// The cursor is drawn.
    pub show_cursor: bool,
    /// The alternate screen is in use.
    pub alt_screen: bool,
}

impl Modes {
    /// The modes a terminal starts with.
    pub open spec fn initial_spec() -> Modes {
        Modes {
            auto_wrap: true,
            origin: false,
            app_cursor: false,
            bracketed_paste: false,
            show_cursor: true,
            alt_screen: false,
        }
    }
}

/// The cursor position, always within the grid.
#[derive(Clone, Copy, PartialEq, Eq, Structural, Debug)]
pub struct Cursor {
    pub row: usize,
    pub col: usize,
}

/// How the cursor is drawn.
#[derive(Clone, Copy, PartialEq, Eq, Structural, Debug)]
pub enum CursorShape {
    Block,
    Underline,
    Beam,
}

/// The shape a set-cursor-style parameter selects; unknown values keep
/// the block.
pub open spec fn shape_of(p: u16) -> CursorShape {
    if p == 3 || p == 4 {
        CursorShape::Underline
    } else if p == 5 || p == 6 {
        CursorShape::Beam
    } else {
        CursorShape::Block
    }
}

/// Whether column `i` carries a tab stop by default: every `interval`
/// columns, the first column excluded.
pub open spec fn default_tab(i: int, interval: int) -> bool {
    i > 0 && i % interval == 0
}

/// The whole terminal: two screens (the active one being drawn to, the
/// other kept underneath), the cursor, the pen, the modes, the scrolling
/// region and the tab stops. The render consumer reads `active`, the
/// cursor, `dirty`, `bell` and `title` through a snapshot.
pub struct Term {
    /// The screen actions are applied to.
    pub active: Grid,
    /// The other screen: the primary one while the alternate is in use,
    /// else the alternate, blank.
    pub inactive: Grid,
    pub cursor: Cursor,
    /// How the render consumer draws the cursor.
    pub cursor_shape: CursorShape,
    pub saved_cursor: Cursor,
    pub saved_style: Style,
    /// The pen applied to printed characters, mutated by SGR sequences.
    pub style: Style,
    pub modes: Modes,
    /// First row of the scrolling region, inclusive.
    pub scroll_top: usize,
    /// Last row of the scrolling region, inclusive.
    pub scroll_bottom: usize,
    /// One flag per column.
    pub tabs: Vec<bool>,
    pub tab_interval: usize,
    /// The pen `SGR 0` resets to; from the configuration.
    pub default_style: Style,
    /// Printing filled the last column; the next printable wraps first.
    pub input_needs_wrap: bool,
    /// Content changed since the render consumer last read.
    pub dirty: bool,
    /// A bell was rung since the render consumer last read.
    pub bell: bool,
    /// A title change waits to be read, as the raw OSC bytes.
    pub title: Option<Vec<u8>>,
}

impl Term {
    /// Well-formed: both screens share the dimensions, cursors are inside,
    /// the scrolling region is ordered and inside, the tab stops cover
    /// every column, and only the primary screen keeps scrollback.
    pub open spec fn wf(self) -> bool {
        &&& self.active.wf()
        &&& self.inactive.wf()
        &&& self.active.rows() == self.inactive.rows()
        &&& self.active.cols == self.inactive.cols
        &&& self.cursor.row < self.active.rows()
        &&& self.cursor.col < self.active.cols
        &&& self.saved_cursor.row < self.active.rows()
        &&& self.saved_cursor.col < self.active.cols
        &&& self.scroll_top <= self.scroll_bottom < self.active.rows()
        &&& self.tabs@.len() == self.active.cols
        &&& self.tab_interval >= 1
        &&& (self.modes.alt_screen ==> self.active.max_scrollback == 0)
        &&& (!self.modes.alt_screen ==> self.inactive.max_scrollback == 0)
    }

    /// The fields that most actions leave alone: everything but the active
    /// screen, the cursor, the pending-wrap flag and the dirty flag.
    pub open spec fn same_core(self, other: Term) -> bool {
        &&& self.inactive == other.inactive
        &&& self.saved_cursor == other.saved_cursor
        &&& self.saved_style == other.saved_style
        &&& self.style == other.style
        &&& self.modes == other.modes
        &&& self.scroll_top == other.scroll_top
        &&& self.scroll_bottom == other.scroll_bottom
        &&& self.tabs@ == other.tabs@
        &&& self.tab_interval == other.tab_interval
        &&& self.default_style == other.default_style
        &&& self.cursor_shape == other.cursor_shape
        &&& self.bell == other.bell
        &&& self.title == other.title
    }

    /// A fresh terminal: both screens blank, cursor at the origin, default
    /// modes and pen, the region spanning the whole screen, tab stops at
    /// every multiple of the interval.
    pub fn new(
        rows: usize,
        cols: usize,
        max_scrollback: usize,
        tab_interval: usize,
        default_style: Style,
    ) -> (t: Term)
        requires
            1 <= rows <= 0xFFFF,
            1 <= cols <= 0xFFFF,
            tab_interval >= 1,
        ensures
            t.wf(),
            t.active.rows() == rows,
            t.active.cols == cols,
            t.active.max_scrollback == max_scrollback,
            t.active.history().len() == 0,
            forall|i: int| 0 <= i < rows ==> t.active.row_blank(i, default_style.bg),
            t.cursor == (Cursor { row: 0, col: 0 }),
            t.cursor_shape == CursorShape::Block,
            t.style == default_style,
            t.modes == Modes::initial_spec(),
            t.scroll_top == 0,
            t.scroll_bottom == rows - 1,
            forall|i: int| 0 <= i < cols ==> t.tabs@[i] == default_tab(i, tab_interval as int),
            !t.input_needs_wrap,
            !t.dirty,
            !t.bell,
            t.title is None,
    {
        let active = Grid::new(rows, cols, max_scrollback, default_style.bg);
        let inactive = Grid::new(rows, cols, 0, default_style.bg);
        let tabs = build_tabs(cols, tab_interval);
        Term {
            active,
            inactive,
            cursor: Cursor { row: 0, col: 0 },
            cursor_shape: CursorShape::Block,
            saved_cursor: Cursor { row: 0, col: 0 },
            saved_style: default_style,
            style: default_style,
            modes: Modes {
                auto_wrap: true,
                origin: false,
                app_cursor: false,
                bracketed_paste: false,
                show_cursor: true,
                alt_screen: false,
            },
            scroll_top: 0,
            scroll_bottom: rows - 1,
            tabs,
            tab_interval,
            default_style,
            input_needs_wrap: false,
            dirty: false,
            bell: false,
            title: None,
        }
    }

    /// Moves the cursor to a column, clearing the pending wrap.
    pub fn carriage_return(&mut self)
        requires
            old(self).wf(),
        ensures
            final(self).wf(),
            *final(self) == (Term {
                cursor: Cursor { row: old(self).cursor.row, col: 0 },
                input_needs_wrap: false,
                dirty: true,
                ..*old(self)
            }),
    {
        self.cursor.col = 0;
        self.input_needs_wrap = false;
        self.dirty = true;
    }

    /// Moves the cursor one column left, stopping at the first.
    pub fn backspace(&mut self)
        requires
            old(self).wf(),
        ensures
            final(self).wf(),
            *final(self) == (Term {
                cursor: Cursor {
                    row: old(self).cursor.row,
                    col: if old(self).cursor.col > 0 {
                        (old(self).cursor.col - 1) as usize
                    } else {
                        0
                    },
                },
                input_needs_wrap: false,
                dirty: true,
                ..*old(self)
            }),
    {
        if self.cursor.col > 0 {
            self.cursor.col = self.cursor.col - 1;
        }
        self.input_needs_wrap = false;
        self.dirty = true;
    }

    /// Rings the bell: remembered until the render consumer reads it.
    pub fn ring_bell(&mut self)
        requires
            old(self).wf(),
        ensures
            final(self).wf(),
            *final(self) == (Term { bell: true, dirty: true, ..*old(self) }),
    {
        self.bell = true;
        self.dirty = true;
    }

    /// Saves the cursor position and the pen, for a later restore.
    pub fn save_cursor(&mut self)
        requires
            old(self).wf(),
        ensures
            final(self).wf(),
            *final(self) == (Term {
                saved_cursor: old(self).cursor,
                saved_style: old(self).style,
                ..*old(self)
            }),
    {
        self.saved_cursor = self.cursor;
        self.saved_style = self.style;
    }

    /// Restores the saved cursor position and pen.
    pub fn restore_cursor(&mut self)
        requires
            old(self).wf(),
        ensures
            final(self).wf(),
            *final(self) == (Term {
                cursor: old(self).saved_cursor,
                style: old(self).saved_style,
                input_needs_wrap: false,
                dirty: true,
                ..*old(self)
            }),
    {
        self.cursor = self.saved_cursor;
        self.style = self.saved_style;
        self.input_needs_wrap = false;
        self.dirty = true;
    }
}

/// One line feed, possibly scrolling: how `t1` relates to `t0`. With
/// `mark`, the line the cursor left is flagged as wrapped; with `col0`,
/// the cursor also returns to the first column. At the bottom of the
/// scrolling region the region scrolls up by one; when the region starts
/// at the top of the primary screen, the line leaving there enters the
/// scrollback; elsewhere the cursor just moves down, stopping at the last
/// row.
pub open spec fn feed_rel(t0: Term, t1: Term, mark: bool, col0: bool) -> bool {
    let row = t0.cursor.row as int;
    let top = t0.scroll_top as int;
    let bottom = t0.scroll_bottom as int;
    &&& t1.same_core(t0)
    &&& t1.dirty
    &&& !t1.input_needs_wrap
    &&& t1.cursor.col == if col0 {
        0
    } else {
        t0.cursor.col as int
    }
    &&& t1.active.rows() == t0.active.rows()
    &&& t1.active.cols == t0.active.cols
    &&& t1.active.max_scrollback == t0.active.max_scrollback
    &&& if row == bottom {
        // Scroll the region up by one; the wrapped mark travels with its
        // line.
        &&& t1.cursor.row == row
        &&& forall|i: int|
            0 <= i < t0.active.rows() && !(top <= i <= bottom) ==> t1.active.row_same(
                t0.active,
                i,
            )
        &&& forall|i: int|
            top <= i < bottom ==> t1.active.cell_row(i) == t0.active.cell_row(i + 1)
                && t1.active.wrapped(i) == if mark && i + 1 == bottom {
                true
            } else {
                t0.active.wrapped(i + 1)
            }
        &&& t1.active.row_blank(bottom, t0.style.bg)
        &&& t1.active.history() == if !t0.modes.alt_screen && t0.scroll_top == 0 {
            pushed_history(
                t0.active.history(),
                t0.active.cell_row(top),
                t0.active.max_scrollback as int,
            )
        } else {
            t0.active.history()
        }
    } else {
        // No scroll: the cursor moves down, stopping at the last row.
        &&& t1.cursor.row == if row < t0.active.rows() - 1 {
            row + 1
        } else {
            row
        }
        &&& forall|i: int|
            0 <= i < t0.active.rows() ==> t1.active.cell_row(i) == t0.active.cell_row(i)
                && t1.active.wrapped(i) == if mark && i == row {
                true
            } else {
                t0.active.wrapped(i)
            }
        &&& t1.active.history() == t0.active.history()
    }
}

/// A reverse line feed: the exact opposite movement of `feed_rel` without
/// marks, scrolling the region down at its top; nothing enters the
/// scrollback.
pub open spec fn reverse_rel(t0: Term, t1: Term) -> bool {
    &&& t1.same_core(t0)
    &&& t1.dirty
    &&& !t1.input_needs_wrap
    &&& t1.cursor.col == t0.cursor.col
    &&& t1.active.rows() == t0.active.rows()
    &&& t1.active.cols == t0.active.cols
    &&& t1.active.max_scrollback == t0.active.max_scrollback
    &&& t1.active.history() == t0.active.history()
    &&& if t0.cursor.row == t0.scroll_top {
        &&& t1.cursor.row == t0.cursor.row
        &&& forall|i: int|
            0 <= i < t0.active.rows() && !(t0.scroll_top <= i <= t0.scroll_bottom)
                ==> t1.active.row_same(t0.active, i)
        &&& forall|i: int|
            t0.scroll_top < i <= t0.scroll_bottom ==> t1.active.cell_row(i)
                == t0.active.cell_row(i - 1) && t1.active.wrapped(i) == t0.active.wrapped(i - 1)
        &&& t1.active.row_blank(t0.scroll_top as int, t0.style.bg)
    } else {
        &&& t1.cursor.row == if t0.cursor.row > 0 {
            t0.cursor.row - 1
        } else {
            0
        }
        &&& forall|i: int|
            0 <= i < t0.active.rows() ==> t1.active.row_same(t0.active, i)
    }
}

impl Term {
    /// A line feed, marking the left line as wrapped and returning to the
    /// first column as asked.
    #[verifier::rlimit(100)]
    #[verifier::spinoff_prover]
    fn feed_line(&mut self, mark: bool, col0: bool)
        requires
            old(self).wf(),
        ensures
            final(self).wf(),
            feed_rel(*old(self), *final(self), mark, col0),
    {
        if mark {
            let row = self.cursor.row;
            self.active.set_wrapped(row, true);
        }
        if col0 {
            self.cursor.col = 0;
        }
        if self.cursor.row == self.scroll_bottom {
            let top = self.scroll_top;
            let bottom = self.scroll_bottom;
            let capture = !self.modes.alt_screen && self.scroll_top == 0;
            let bg = self.style.bg;
            let ghost before = self.active;
            self.active.scroll_up(top, bottom, 1, capture, bg);
            proof {
                assert(Grid::scroll_amount(1, top as int, bottom as int) == 1);
                if capture {
                    assert(Seq::new(1, |k: int| before.cell_row(top + k)) =~= seq![
                        before.cell_row(top as int),
                    ]);
                    crate::grid::lemma_pushed_all_one(
                        before.history(),
                        before.cell_row(top as int),
                        before.max_scrollback as int,
                    );
                }
                let t0 = *old(self);
                assert forall|i: int|
                    top <= i < bottom implies self.active.cell_row(i) == t0.active.cell_row(i + 1)
                    && self.active.wrapped(i) == (if mark && i + 1 == bottom {
                    true
                } else {
                    t0.active.wrapped(i + 1)
                }) by {
                    assert(self.active.cell_row(i) == before.cell_row(i + 1));
                    assert(self.active.wrapped(i) == before.wrapped(i + 1));
                }
                assert forall|i: int|
                    0 <= i < t0.active.rows() && !(top <= i <= bottom) implies self.active.row_same(
                    t0.active,
                    i,
                ) by {
                    assert(self.active.row_same(before, i));
                }
            }
        } else if self.cursor.row < self.active.lines.len() - 1 {
            self.cursor.row = self.cursor.row + 1;
        }
        self.input_needs_wrap = false;
        self.dirty = true;
    }

    /// A line feed: the cursor moves down; at the bottom of the scrolling
    /// region the region scrolls up, feeding the scrollback on the primary
    /// screen.
    pub fn linefeed(&mut self)
        requires
            old(self).wf(),
        ensures
            final(self).wf(),
            feed_rel(*old(self), *final(self), false, false),
    {
        self.feed_line(false, false);
    }

    /// A reverse line feed: the cursor moves up; at the top of the
    /// scrolling region the region scrolls down instead, dropping its
    /// bottom line. The scrollback never changes.
    pub fn reverse_feed(&mut self)
        requires
            old(self).wf(),
        ensures
            final(self).wf(),
            reverse_rel(*old(self), *final(self)),
    {
        if self.cursor.row == self.scroll_top {
            let top = self.scroll_top;
            let bottom = self.scroll_bottom;
            let bg = self.style.bg;
            self.active.scroll_down(top, bottom, 1, bg);
        } else if self.cursor.row > 0 {
            self.cursor.row = self.cursor.row - 1;
        }
        self.input_needs_wrap = false;
        self.dirty = true;
    }
}

/// The column of the next tab stop strictly after `col`, or the last
/// column when none is set.
pub open spec fn next_tab(tabs: Seq<bool>, col: int) -> int
    decreases tabs.len() - col,
{
    if col + 1 >= tabs.len() {
        tabs.len() - 1
    } else if tabs[col + 1] {
        col + 1
    } else {
        next_tab(tabs, col + 1)
    }
}

/// Erasing the whole display: every cell of the active screen becomes a
/// blank carrying the pen's background; the cursor, the scrollback and all
/// other state stay.
pub open spec fn erase_all_rel(t0: Term, t1: Term) -> bool {
    &&& t1.same_core(t0)
    &&& t1.cursor == t0.cursor
    &&& t1.input_needs_wrap == t0.input_needs_wrap
    &&& t1.dirty
    &&& t1.active.rows() == t0.active.rows()
    &&& t1.active.cols == t0.active.cols
    &&& t1.active.max_scrollback == t0.active.max_scrollback
    &&& forall|i: int| 0 <= i < t0.active.rows() ==> t1.active.row_blank(i, t0.style.bg)
    &&& t1.active.scrollback@ == t0.active.scrollback@
}

/// Erasing the whole display is idempotent: done twice in a row, the
/// second pass leaves exactly the screen, cursor and history the first
/// one left.
pub proof fn lemma_erase_display_idempotent(t0: Term, t1: Term, t2: Term)
    requires
        t0.wf(),
        erase_all_rel(t0, t1),
        erase_all_rel(t1, t2),
    ensures
        t2.active.same_screen(t1.active),
        t2.cursor == t1.cursor,
        t2.active.history() == t1.active.history(),
{
    assert forall|i: int| 0 <= i < t1.active.rows() implies t2.active.row_same(t1.active, i) by {
        assert(t1.active.row_blank(i, t0.style.bg));
        assert(t2.active.row_blank(i, t0.style.bg));
        assert(t2.active.cell_row(i) =~= t1.active.cell_row(i));
    }
}


/// Cursor addressing: one-based row and column, rows relative to the
/// region top under origin mode, both clamped to their bounds.
pub open spec fn goto_rel(t0: Term, t1: Term, row1: int, col1: int) -> bool {
    &&& t1.same_core(t0)
    &&& t1.active == t0.active
    &&& t1.dirty
    &&& !t1.input_needs_wrap
    &&& t1.cursor.row == ({
        let want = t0.row_floor() + (if row1 >= 1 {
            row1 - 1
        } else {
            0
        });
        if want > t0.row_ceil() {
            t0.row_ceil()
        } else {
            want
        }
    })
    &&& t1.cursor.col == ({
        let want: int = if col1 >= 1 {
            col1 - 1
        } else {
            0
        };
        if want > t0.active.cols - 1 {
            t0.active.cols - 1
        } else {
            want
        }
    })
}

/// Erasing part of the cursor's line: the whole line, from the start
/// through the cursor, or from the cursor to the end, with blanks
/// carrying the pen's background.
pub open spec fn erase_line_rel(t0: Term, t1: Term, mode: u16) -> bool {
    let from: int = if mode == 1 {
        0
    } else {
        t0.cursor.col as int
    };
    let to: int = if mode == 1 {
        t0.cursor.col + 1
    } else {
        t0.active.cols as int
    };
    &&& t1.same_core(t0)
    &&& t1.cursor == t0.cursor
    &&& t1.dirty
    &&& t1.input_needs_wrap == t0.input_needs_wrap
    &&& t1.active.rows() == t0.active.rows()
    &&& t1.active.cols == t0.active.cols
    &&& t1.active.max_scrollback == t0.active.max_scrollback
    &&& t1.active.scrollback@ == t0.active.scrollback@
    &&& forall|j: int|
        from <= j < to ==> t1.active.cell(t0.cursor.row as int, j) == blank_cell_spec(t0.style.bg)
    &&& forall|j: int|
        0 <= j < t0.active.cols && !(from <= j < to) ==> t1.active.cell(t0.cursor.row as int, j)
            == t0.active.cell(t0.cursor.row as int, j)
    &&& forall|i: int, j: int|
        0 <= i < t0.active.rows() && 0 <= j < t0.active.cols && i != t0.cursor.row
            ==> t1.active.cell(i, j) == t0.active.cell(i, j)
    &&& forall|i: int|
        0 <= i < t0.active.rows() ==> t1.active.wrapped(i) == t0.active.wrapped(i)
}

/// Erasing part of the display: everything (`mode` 2), everything through
/// the cursor (`mode` 1), or the cursor and everything after it (any other
/// `mode`), with blanks carrying the pen's background. The scrollback is
/// left alone.
pub open spec fn erase_display_rel(t0: Term, t1: Term, mode: u16) -> bool {
    &&& (mode == 2 ==> erase_all_rel(t0, t1))
    &&& t1.same_core(t0)
    &&& t1.cursor == t0.cursor
    &&& t1.dirty
    &&& t1.input_needs_wrap == t0.input_needs_wrap
    &&& t1.active.rows() == t0.active.rows()
    &&& t1.active.cols == t0.active.cols
    &&& t1.active.max_scrollback == t0.active.max_scrollback
    &&& t1.active.scrollback@ == t0.active.scrollback@
    &&& (mode == 0 ==> ({
        &&& forall|i: int|
            t0.cursor.row < i < t0.active.rows() ==> t1.active.row_blank(i, t0.style.bg)
        &&& forall|j: int|
            t0.cursor.col <= j < t0.active.cols ==> t1.active.cell(t0.cursor.row as int, j)
                == blank_cell_spec(t0.style.bg)
        &&& forall|j: int|
            0 <= j < t0.cursor.col ==> t1.active.cell(t0.cursor.row as int, j) == t0.active.cell(
                t0.cursor.row as int,
                j,
            )
        &&& forall|i: int|
            0 <= i < t0.cursor.row ==> t1.active.row_same(t0.active, i)
    }))
    &&& (mode == 1 ==> ({
        &&& forall|i: int| 0 <= i < t0.cursor.row ==> t1.active.row_blank(i, t0.style.bg)
        &&& forall|j: int|
            0 <= j <= t0.cursor.col ==> t1.active.cell(t0.cursor.row as int, j)
                == blank_cell_spec(t0.style.bg)
        &&& forall|j: int|
            t0.cursor.col < j < t0.active.cols ==> t1.active.cell(t0.cursor.row as int, j)
                == t0.active.cell(t0.cursor.row as int, j)
        &&& forall|i: int|
            t0.cursor.row < i < t0.active.rows() ==> t1.active.row_same(t0.active, i)
    }))
}

impl Term {
    /// Moves the cursor to an absolute position, already clamped by the
    /// caller, clearing the pending wrap.
    fn jump(&mut self, row: usize, col: usize)
        requires
            old(self).wf(),
            row < old(self).active.rows(),
            col < old(self).active.cols,
        ensures
            final(self).wf(),
            *final(self) == (Term {
                cursor: Cursor { row, col },
                input_needs_wrap: false,
                dirty: true,
                ..*old(self)
            }),
    {
        self.cursor.row = row;
        self.cursor.col = col;
        self.input_needs_wrap = false;
        self.dirty = true;
    }

    /// The row the cursor may not leave upwards: the region top under
    /// origin mode, else the first row.
    pub open spec fn row_floor(self) -> int {
        if self.modes.origin {
            self.scroll_top as int
        } else {
            0
        }
    }

    /// The row the cursor may not leave downwards: the region bottom under
    /// origin mode, else the last row.
    pub open spec fn row_ceil(self) -> int {
        if self.modes.origin {
            self.scroll_bottom as int
        } else {
            self.active.rows() - 1
        }
    }

    /// Moves the cursor up `n` rows, clamped by origin mode.
    pub fn cursor_up(&mut self, n: usize)
        requires
            old(self).wf(),
        ensures
            final(self).wf(),
            *final(self) == (Term {
                cursor: Cursor {
                    row: if old(self).cursor.row - n >= old(self).row_floor()
                        && old(self).cursor.row >= old(self).row_floor() {
                        (old(self).cursor.row - n) as usize
                    } else if old(self).cursor.row >= old(self).row_floor() {
                        old(self).row_floor() as usize
                    } else {
                        0
                    },
                    col: old(self).cursor.col,
                },
                input_needs_wrap: false,
                dirty: true,
                ..*old(self)
            }),
    {
        let floor: usize = if self.modes.origin {
            self.scroll_top
        } else {
            0
        };
        let row = if self.cursor.row >= floor {
            if self.cursor.row - floor >= n {
                self.cursor.row - n
            } else {
                floor
            }
        } else {
            0
        };
        let col = self.cursor.col;
        self.jump(row, col);
    }

    /// Moves the cursor down `n` rows, clamped by origin mode.
    pub fn cursor_down(&mut self, n: usize)
        requires
            old(self).wf(),
        ensures
            final(self).wf(),
            *final(self) == (Term {
                cursor: Cursor {
                    row: if old(self).cursor.row + n <= old(self).row_ceil() {
                        (old(self).cursor.row + n) as usize
                    } else if old(self).cursor.row <= old(self).row_ceil() {
                        old(self).row_ceil() as usize
                    } else {
                        old(self).cursor.row
                    },
                    col: old(self).cursor.col,
                },
                input_needs_wrap: false,
                dirty: true,
                ..*old(self)
            }),
    {
        let ceil: usize = if self.modes.origin {
            self.scroll_bottom
        } else {
            self.active.lines.len() - 1
        };
        let row = if self.cursor.row <= ceil {
            if ceil - self.cursor.row >= n {
                self.cursor.row + n
            } else {
                ceil
            }
        } else {
            self.cursor.row
        };
        let col = self.cursor.col;
        self.jump(row, col);
    }

    /// Moves the cursor right `n` columns, stopping at the last.
    pub fn cursor_forward(&mut self, n: usize)
        requires
            old(self).wf(),
        ensures
            final(self).wf(),
            *final(self) == (Term {
                cursor: Cursor {
                    row: old(self).cursor.row,
                    col: if old(self).cursor.col + n < old(self).active.cols {
                        (old(self).cursor.col + n) as usize
                    } else {
                        (old(self).active.cols - 1) as usize
                    },
                },
                input_needs_wrap: false,
                dirty: true,
                ..*old(self)
            }),
    {
        let cols = self.active.cols;
        let col = if cols - 1 - self.cursor.col >= n {
            self.cursor.col + n
        } else {
            cols - 1
        };
        let row = self.cursor.row;
        self.jump(row, col);
    }

    /// Moves the cursor left `n` columns, stopping at the first.
    pub fn cursor_back(&mut self, n: usize)
        requires
            old(self).wf(),
        ensures
            final(self).wf(),
            *final(self) == (Term {
                cursor: Cursor {
                    row: old(self).cursor.row,
                    col: if old(self).cursor.col >= n {
                        (old(self).cursor.col - n) as usize
                    } else {
                        0
                    },
                    ..old(self).cursor
                },
                input_needs_wrap: false,
                dirty: true,
                ..*old(self)
            }),
    {
        let col = if self.cursor.col >= n {
            self.cursor.col - n
        } else {
            0
        };
        let row = self.cursor.row;
        self.jump(row, col);
    }

    /// Addresses the cursor: one-based row and column, rows relative to
    /// the region top under origin mode, both clamped to their bounds.
    pub fn goto(&mut self, row1: usize, col1: usize)
        requires
            old(self).wf(),
        ensures
            final(self).wf(),
            goto_rel(*old(self), *final(self), row1 as int, col1 as int),
    {
        let floor: usize = if self.modes.origin {
            self.scroll_top
        } else {
            0
        };
        let ceil: usize = if self.modes.origin {
            self.scroll_bottom
        } else {
            self.active.lines.len() - 1
        };
        let r0 = if row1 >= 1 {
            row1 - 1
        } else {
            0
        };
        let row = if r0 <= ceil - floor {
            floor + r0
        } else {
            ceil
        };
        let c0 = if col1 >= 1 {
            col1 - 1
        } else {
            0
        };
        let cols = self.active.cols;
        let col = if c0 < cols {
            c0
        } else {
            cols - 1
        };
        self.jump(row, col);
    }

    /// A horizontal tab: the cursor advances to the next tab stop, or to
    /// the last column.
    pub fn tab(&mut self)
        requires
            old(self).wf(),
        ensures
            final(self).wf(),
            *final(self) == (Term {
                cursor: Cursor {
                    row: old(self).cursor.row,
                    col: next_tab(old(self).tabs@, old(self).cursor.col as int) as usize,
                },
                input_needs_wrap: false,
                dirty: true,
                ..*old(self)
            }),
    {
        let col = tab_scan(&self.tabs, self.cursor.col);
        let row = self.cursor.row;
        proof {
            lemma_next_tab_bounds(self.tabs@, self.cursor.col as int);
        }
        self.jump(row, col);
    }

    /// Sets a tab stop at the cursor column.
    pub fn set_tab_stop(&mut self)
        requires
            old(self).wf(),
        ensures
            final(self).wf(),
            final(self).tabs@ == old(self).tabs@.update(old(self).cursor.col as int, true),
            *final(self) == (Term { tabs: final(self).tabs, ..*old(self) }),
    {
        let col = self.cursor.col;
        self.tabs[col] = true;
    }

    /// Clears a tab stop at the cursor column, or all of them.
    pub fn clear_tab_stops(&mut self, all: bool)
        requires
            old(self).wf(),
        ensures
            final(self).wf(),
            final(self).tabs@.len() == old(self).tabs@.len(),
            forall|i: int|
                0 <= i < old(self).tabs@.len() ==> final(self).tabs@[i] == (if all {
                    false
                } else if i == old(self).cursor.col {
                    false
                } else {
                    old(self).tabs@[i]
                }),
            *final(self) == (Term { tabs: final(self).tabs, ..*old(self) }),
    {
        if all {
            let n = self.tabs.len();
            let mut i: usize = 0;
            while i < n
                invariant
                    i <= n,
                    self.tabs@.len() == n,
                    forall|k: int| 0 <= k < i ==> !self.tabs@[k],
                    forall|k: int| i <= k < n ==> self.tabs@[k] == old(self).tabs@[k],
                    *self == (Term { tabs: self.tabs, ..*old(self) }),
                decreases n - i,
            {
                self.tabs[i] = false;
                i = i + 1;
            }
        } else {
            let col = self.cursor.col;
            self.tabs[col] = false;
        }
    }

    /// Erases part of the cursor's line: the whole line, from the start
    /// through the cursor, or from the cursor to the end, with blanks
    /// carrying the pen's background.
    pub fn erase_line(&mut self, mode: u16)
        requires
            old(self).wf(),
        ensures
            final(self).wf(),
            erase_line_rel(*old(self), *final(self), mode),
    {
        let row = self.cursor.row;
        let cols = self.active.cols;
        let bg = self.style.bg;
        let from = if mode == 1 {
            0
        } else {
            self.cursor.col
        };
        let to = if mode == 1 {
            self.cursor.col + 1
        } else {
            cols
        };
        self.active.erase_row_range(row, from, to, bg);
        self.dirty = true;
    }

    /// Erases part of the display: everything, everything up to and
    /// including the cursor's line, or the cursor's line (from the cursor)
    /// and everything below, with blanks carrying the pen's background.
    /// The scrollback is left alone.
    pub fn erase_display(&mut self, mode: u16)
        requires
            old(self).wf(),
        ensures
            final(self).wf(),
            erase_display_rel(*old(self), *final(self), mode),
    {
        let rows = self.active.lines.len();
        let cols = self.active.cols;
        let bg = self.style.bg;
        let row = self.cursor.row;
        if mode == 1 {
            self.active.erase_rows(0, row, bg);
            let ghost midg = self.active;
            self.active.erase_row_range(row, 0, self.cursor.col + 1, bg);
            proof {
                assert forall|i: int| 0 <= i < row implies self.active.row_blank(i, bg) by {
                    assert(self.active.lines@[i] == midg.lines@[i]);
                    assert(midg.row_blank(i, bg));
                }
                assert forall|j: int|
                    0 <= j <= old(self).cursor.col implies self.active.cell(row as int, j)
                    == blank_cell_spec(old(self).style.bg) by {
                    assert(self.active.cell(row as int, j) == blank_cell_spec(bg));
                }
                assert forall|j: int|
                    old(self).cursor.col < j < self.active.cols implies self.active.cell(
                    row as int,
                    j,
                ) == old(self).active.cell(row as int, j) by {
                    assert(self.active.cell(row as int, j) == midg.cell(row as int, j));
                    assert(midg.row_same(old(self).active, row as int));
                    assert(midg.cell_row(row as int) == old(self).active.cell_row(row as int));
                }
                assert forall|i: int|
                    row < i < self.active.rows() implies self.active.row_same(
                    old(self).active,
                    i,
                ) by {
                    assert(self.active.lines@[i] == midg.lines@[i]);
                    assert(midg.row_same(old(self).active, i));
                }
            }
        } else if mode == 2 {
            self.active.erase_rows(0, rows, bg);
        } else {
            let ghost g0 = self.active;
            self.active.erase_row_range(row, self.cursor.col, cols, bg);
            let ghost midg = self.active;
            self.active.erase_rows(row + 1, rows, bg);
            proof {
                assert(self.active.row_same(midg, row as int));
                assert forall|j: int|
                    old(self).cursor.col <= j < cols implies self.active.cell(row as int, j)
                    == blank_cell_spec(old(self).style.bg) by {
                    assert(self.active.cell_row(row as int) == midg.cell_row(row as int));
                    assert(self.active.cell(row as int, j) == midg.cell(row as int, j));
                    assert(midg.cell(row as int, j) == blank_cell_spec(bg));
                }
                assert forall|j: int|
                    0 <= j < old(self).cursor.col implies self.active.cell(row as int, j) == old(
                    self,
                ).active.cell(row as int, j) by {
                    assert(self.active.cell_row(row as int) == midg.cell_row(row as int));
                    assert(self.active.cell(row as int, j) == midg.cell(row as int, j));
                    assert(midg.cell(row as int, j) == g0.cell(row as int, j));
                }
                assert forall|i: int|
                    0 <= i < row implies self.active.row_same(old(self).active, i) by {
                    assert(self.active.row_same(midg, i));
                    assert(midg.lines@[i] == g0.lines@[i]);
                }
            }
        }
        self.dirty = true;
    }
}

/// How many columns a character occupies: 2 for the major wide blocks
/// (Hangul Jamo, CJK and friends, Hangul syllables, CJK compatibility,
/// fullwidth forms), 1 for everything else.
pub open spec fn char_width(c: char) -> int {
    let u = c as u32;
    if (0x1100 <= u && u <= 0x115F) || (0x2E80 <= u && u <= 0x303E) || (0x3041 <= u && u
        <= 0x33FF) || (0x3400 <= u && u <= 0x4DBF) || (0x4E00 <= u && u <= 0x9FFF) || (0xA000 <= u
        && u <= 0xA4CF) || (0xAC00 <= u && u <= 0xD7A3) || (0xF900 <= u && u <= 0xFAFF) || (0xFE30
        <= u && u <= 0xFE4F) || (0xFF00 <= u && u <= 0xFF60) || (0xFFE0 <= u && u <= 0xFFE6) || (
    0x20000 <= u && u <= 0x2FFFD) || (0x30000 <= u && u <= 0x3FFFD) {
        2
    } else {
        1
    }
}

/// Computes `char_width`.
pub fn char_columns(c: char) -> (r: usize)
    ensures
        r == char_width(c),
{
    let u = c as u32;
    if (0x1100 <= u && u <= 0x115F) || (0x2E80 <= u && u <= 0x303E) || (0x3041 <= u && u
        <= 0x33FF) || (0x3400 <= u && u <= 0x4DBF) || (0x4E00 <= u && u <= 0x9FFF) || (0xA000 <= u
        && u <= 0xA4CF) || (0xAC00 <= u && u <= 0xD7A3) || (0xF900 <= u && u <= 0xFAFF) || (0xFE30
        <= u && u <= 0xFE4F) || (0xFF00 <= u && u <= 0xFF60) || (0xFFE0 <= u && u <= 0xFFE6) || (
    0x20000 <= u && u <= 0x2FFFD) || (0x30000 <= u && u <= 0x3FFFD) {
        2
    } else {
        1
    }
}

/// The cell a printed character leaves under the pen; the first cell of a
/// wide glyph carries the wide flag.
pub open spec fn print_cell(c: char, s: Style) -> Cell {
    Cell {
        ch: c,
        fg: s.fg,
        bg: s.bg,
        flags: Flags { wide: char_width(c) == 2, wide_spacer: false, ..s.flags },
    }
}

/// The second cell of a wide glyph: a spacer tied to the cell on its left.
pub open spec fn spacer_cell(s: Style) -> Cell {
    Cell {
        ch: ' ',
        fg: s.fg,
        bg: s.bg,
        flags: Flags { wide: false, wide_spacer: true, ..s.flags },
    }
}

/// One character written at the cursor, with room for it on the line: the
/// cell (and the spacer of a wide glyph) under the pen, the cursor
/// advanced, or left on the last column with the wrap pending.
pub open spec fn put_rel(t0: Term, t1: Term, c: char) -> bool {
    let w = char_width(c);
    let row = t0.cursor.row as int;
    let col = t0.cursor.col as int;
    &&& t1.same_core(t0)
    &&& t1.dirty
    &&& t1.cursor.row == row
    &&& t1.active.rows() == t0.active.rows()
    &&& t1.active.cols == t0.active.cols
    &&& t1.active.max_scrollback == t0.active.max_scrollback
    &&& t1.active.scrollback@ == t0.active.scrollback@
    &&& t1.active.cell(row, col) == print_cell(c, t0.style)
    &&& (w == 2 ==> t1.active.cell(row, col + 1) == spacer_cell(t0.style))
    &&& forall|i: int, j: int|
        0 <= i < t0.active.rows() && 0 <= j < t0.active.cols && !(i == row && (j == col || (w == 2
            && j == col + 1))) ==> t1.active.cell(i, j) == t0.active.cell(i, j)
    &&& forall|i: int|
        0 <= i < t0.active.rows() ==> t1.active.wrapped(i) == t0.active.wrapped(i)
    &&& if col + w < t0.active.cols {
        t1.cursor.col == col + w && !t1.input_needs_wrap
    } else {
        t1.cursor.col == t0.active.cols - 1 && t1.input_needs_wrap
    }
}

/// One printable character fed to the terminal. A wide glyph that does not
/// fit on what is left of the line wraps whole to the next line (or is
/// dropped when it cannot fit at all, or when auto-wrap is off); a pending
/// wrap from the previous print is taken first when auto-wrap is on.
pub open spec fn print_rel(t0: Term, t1: Term, c: char) -> bool {
    let w = char_width(c);
    if w == 2 && (t0.active.cols < 2 || (!t0.modes.auto_wrap && t0.cursor.col + 2
        > t0.active.cols)) {
        t1 == (Term { dirty: true, ..t0 })
    } else if t0.modes.auto_wrap && (t0.input_needs_wrap || (w == 2 && t0.cursor.col + 2
        > t0.active.cols)) {
        exists|tm: Term| #[trigger] feed_rel(t0, tm, true, true) && put_rel(tm, t1, c)
    } else {
        put_rel(t0, t1, c)
    }
}

impl Term {
    /// Writes one character at the cursor; the caller has made room.
    fn put_char(&mut self, c: char)
        requires
            old(self).wf(),
            char_width(c) == 2 ==> old(self).cursor.col + 2 <= old(self).active.cols,
        ensures
            final(self).wf(),
            put_rel(*old(self), *final(self), c),
    {
        let w = char_columns(c);
        let row = self.cursor.row;
        let col = self.cursor.col;
        let wide = w == 2;
        let cell = Cell {
            ch: c,
            fg: self.style.fg,
            bg: self.style.bg,
            flags: Flags { wide, wide_spacer: false, ..self.style.flags },
        };
        self.active.set(row, col, cell);
        if wide {
            let spacer = Cell {
                ch: ' ',
                fg: self.style.fg,
                bg: self.style.bg,
                flags: Flags { wide: false, wide_spacer: true, ..self.style.flags },
            };
            self.active.set(row, col + 1, spacer);
        }
        let cols = self.active.cols;
        if col + w < cols {
            self.cursor.col = col + w;
            self.input_needs_wrap = false;
        } else {
            self.cursor.col = cols - 1;
            self.input_needs_wrap = true;
        }
        self.dirty = true;
    }

    /// One printable character: wraps first when a pending wrap or a wide
    /// glyph at the edge demands it, then writes at the cursor.
    pub fn print_char(&mut self, c: char)
        requires
            old(self).wf(),
        ensures
            final(self).wf(),
            print_rel(*old(self), *final(self), c),
    {
        let w = char_columns(c);
        let cols = self.active.cols;
        if w == 2 && (cols < 2 || (!self.modes.auto_wrap && self.cursor.col + 2 > cols)) {
            self.dirty = true;
            return ;
        }
        if self.modes.auto_wrap && (self.input_needs_wrap || (w == 2 && self.cursor.col + 2
            > cols)) {
            self.feed_line(true, true);
            let ghost tm = *self;
            self.put_char(c);
            proof {
                assert(feed_rel(*old(self), tm, true, true));
                assert(put_rel(tm, *self, c));
            }
        } else {
            self.put_char(c);
        }
    }

    /// Round trip: printing a run of plain one-column characters that fits
    /// on what is left of the line writes exactly those characters, in
    /// order, at the cursor's row under the pen, touches nothing else, and
    /// advances the cursor by the run's length (stopping on the last
    /// column with the wrap pending, as auto-wrap prescribes). Reading any
    /// of those cells back through `snapshot_cell` yields the character
    /// printed there.
    pub fn print_ascii_run(&mut self, chars: &Vec<char>)
        requires
            old(self).wf(),
            !old(self).input_needs_wrap,
            forall|i: int|
                0 <= i < chars@.len() ==> 0x20 <= (#[trigger] chars@[i]) as u32 <= 0x7E,
            old(self).cursor.col + chars@.len() <= old(self).active.cols,
        ensures
            final(self).wf(),
            final(self).same_core(*old(self)),
            final(self).cursor.row == old(self).cursor.row,
            final(self).active.rows() == old(self).active.rows(),
            final(self).active.cols == old(self).active.cols,
            final(self).active.scrollback@ == old(self).active.scrollback@,
            forall|k: int|
                0 <= k < chars@.len() ==> final(self).active.cell(
                    old(self).cursor.row as int,
                    old(self).cursor.col + k,
                ) == print_cell(chars@[k], old(self).style),
            forall|i: int, j: int|
                0 <= i < old(self).active.rows() && 0 <= j < old(self).active.cols && !(i == old(
                    self,
                ).cursor.row && old(self).cursor.col <= j < old(self).cursor.col + chars@.len())
                    ==> final(self).active.cell(i, j) == old(self).active.cell(i, j),
            forall|i: int|
                0 <= i < old(self).active.rows()
                    ==> final(self).active.wrapped(i) == old(self).active.wrapped(i),
            if old(self).cursor.col + chars@.len() < old(self).active.cols {
                final(self).cursor.col == old(self).cursor.col + chars@.len()
                    && !final(self).input_needs_wrap
            } else {
                final(self).cursor.col == old(self).active.cols - 1 && (chars@.len() > 0
                    ==> final(self).input_needs_wrap)
            },
    {
        let n = chars.len();
        let mut k: usize = 0;
        while k < n
            invariant
                old(self).wf(),
                k <= n,
                n == chars@.len(),
                forall|i: int| 0 <= i < n ==> 0x20 <= (#[trigger] chars@[i]) as u32 <= 0x7E,
                old(self).cursor.col + n <= old(self).active.cols,
                self.wf(),
                self.same_core(*old(self)),
                self.cursor.row == old(self).cursor.row,
                self.active.rows() == old(self).active.rows(),
                self.active.cols == old(self).active.cols,
                self.active.scrollback@ == old(self).active.scrollback@,
                self.cursor.col == if old(self).cursor.col + k < old(self).active.cols {
                    old(self).cursor.col + k
                } else {
                    old(self).active.cols - 1
                },
                k > 0 && old(self).cursor.col + k >= old(self).active.cols
                    ==> self.input_needs_wrap,
                old(self).cursor.col + k < old(self).active.cols ==> !self.input_needs_wrap,
                k == 0 ==> self.input_needs_wrap == old(self).input_needs_wrap,
                forall|x: int|
                    0 <= x < k ==> self.active.cell(
                        old(self).cursor.row as int,
                        old(self).cursor.col + x,
                    ) == print_cell(chars@[x], old(self).style),
                forall|i: int, j: int|
                    0 <= i < old(self).active.rows() && 0 <= j < old(self).active.cols && !(i
                        == old(self).cursor.row && old(self).cursor.col <= j < old(
                        self,
                    ).cursor.col + k) ==> self.active.cell(i, j) == old(self).active.cell(i, j),
                forall|i: int|
                    0 <= i < old(self).active.rows() ==> self.active.wrapped(i) == old(
                        self,
                    ).active.wrapped(i),
            decreases n - k,
        {
            let ghost prev = *self;
            proof {
                assert(char_width(chars@[k as int]) == 1);
            }
            self.put_char(chars[k]);
            proof {
                assert forall|x: int| 0 <= x < k + 1 implies self.active.cell(
                    old(self).cursor.row as int,
                    old(self).cursor.col + x,
                ) == print_cell(chars@[x], old(self).style) by {
                    if x < k {
                        assert(prev.active.cell(
                            old(self).cursor.row as int,
                            old(self).cursor.col + x,
                        ) == print_cell(chars@[x], old(self).style));
                    }
                }
            }
            k = k + 1;
        }
    }
}

/// Entering the alternate screen: the primary screen and its scrollback
/// are kept whole underneath, the cursor is saved, and a blank screen
/// without scrollback takes over.
pub open spec fn enter_alt_rel(t0: Term, t1: Term) -> bool {
    &&& t1.inactive == t0.active
    &&& t1.modes == (Modes { alt_screen: true, ..t0.modes })
    &&& t1.saved_cursor == t0.cursor
    &&& t1.saved_style == t0.style
    &&& t1.cursor == t0.cursor
    &&& t1.cursor_shape == t0.cursor_shape
    &&& t1.style == t0.style
    &&& t1.scroll_top == t0.scroll_top
    &&& t1.scroll_bottom == t0.scroll_bottom
    &&& t1.tabs@ == t0.tabs@
    &&& t1.tab_interval == t0.tab_interval
    &&& t1.default_style == t0.default_style
    &&& t1.bell == t0.bell
    &&& t1.title == t0.title
    &&& t1.dirty
    &&& t1.active.rows() == t0.active.rows()
    &&& t1.active.cols == t0.active.cols
    &&& t1.active.max_scrollback == 0
    &&& forall|i: int| 0 <= i < t1.active.rows() ==> t1.active.row_blank(i, t0.style.bg)
}

/// Leaving the alternate screen: the primary screen comes back exactly as
/// it was kept, scrollback included, and the saved cursor returns.
pub open spec fn exit_alt_rel(t0: Term, t1: Term) -> bool {
    &&& t1.active == t0.inactive
    &&& t1.modes == (Modes { alt_screen: false, ..t0.modes })
    &&& t1.cursor == t0.saved_cursor
    &&& t1.cursor_shape == t0.cursor_shape
    &&& t1.saved_cursor == t0.saved_cursor
    &&& t1.saved_style == t0.saved_style
    &&& t1.style == t0.style
    &&& t1.scroll_top == t0.scroll_top
    &&& t1.scroll_bottom == t0.scroll_bottom
    &&& t1.tabs@ == t0.tabs@
    &&& t1.tab_interval == t0.tab_interval
    &&& t1.default_style == t0.default_style
    &&& t1.bell == t0.bell
    &&& t1.title == t0.title
    &&& t1.dirty
    &&& t1.inactive.rows() == t0.active.rows()
    &&& t1.inactive.cols == t0.active.cols
    &&& t1.inactive.max_scrollback == 0
}

/// One mode toggled, with its side effects: how `t1` relates to `t0` for
/// the private set/reset codes this terminal recognises. Codes it does
/// not know change nothing.
pub open spec fn mode_rel(t0: Term, t1: Term, code: u16, on: bool) -> bool {
    if code == 1 {
        t1 == (Term {
            modes: Modes { app_cursor: on, ..t0.modes },
            dirty: true,
            ..t0
        })
    } else if code == 6 {
        // Origin mode also homes the cursor, to the region top.
        t1 == (Term {
            modes: Modes { origin: on, ..t0.modes },
            cursor: Cursor {
                row: if on {
                    t0.scroll_top
                } else {
                    0
                },
                col: 0,
            },
            input_needs_wrap: false,
            dirty: true,
            ..t0
        })
    } else if code == 7 {
        t1 == (Term { modes: Modes { auto_wrap: on, ..t0.modes }, dirty: true, ..t0 })
    } else if code == 25 {
        t1 == (Term { modes: Modes { show_cursor: on, ..t0.modes }, dirty: true, ..t0 })
    } else if code == 2004 {
        t1 == (Term {
            modes: Modes { bracketed_paste: on, ..t0.modes },
            dirty: true,
            ..t0
        })
    } else if code == 47 || code == 1047 || code == 1049 {
        if on == t0.modes.alt_screen {
            t1 == t0
        } else if on {
            enter_alt_rel(t0, t1)
        } else {
            exit_alt_rel(t0, t1)
        }
    } else {
        t1 == t0
    }
}

/// The pen after one SGR parameter list, read from position `i`: bold,
/// italic, underline and inverse on and off, the two indexed palettes,
/// 256-colour and direct-colour selections, and the reset to the
/// configured default pen. A malformed extended-colour selection ends the
/// list.
pub open spec fn sgr_at(s: Style, d: Style, ps: Seq<u16>, i: int) -> Style
    decreases ps.len() - i,
{
    if i < 0 || i >= ps.len() {
        s
    } else {
        let code = ps[i];
        if code == 0 {
            sgr_at(d, d, ps, i + 1)
        } else if code == 1 {
            sgr_at(Style { flags: Flags { bold: true, ..s.flags }, ..s }, d, ps, i + 1)
        } else if code == 3 {
            sgr_at(Style { flags: Flags { italic: true, ..s.flags }, ..s }, d, ps, i + 1)
        } else if code == 4 {
            sgr_at(Style { flags: Flags { underline: true, ..s.flags }, ..s }, d, ps, i + 1)
        } else if code == 7 {
            sgr_at(Style { flags: Flags { inverse: true, ..s.flags }, ..s }, d, ps, i + 1)
        } else if code == 22 {
            sgr_at(Style { flags: Flags { bold: false, ..s.flags }, ..s }, d, ps, i + 1)
        } else if code == 23 {
            sgr_at(Style { flags: Flags { italic: false, ..s.flags }, ..s }, d, ps, i + 1)
        } else if code == 24 {
            sgr_at(Style { flags: Flags { underline: false, ..s.flags }, ..s }, d, ps, i + 1)
        } else if code == 27 {
            sgr_at(Style { flags: Flags { inverse: false, ..s.flags }, ..s }, d, ps, i + 1)
        } else if 30 <= code && code <= 37 {
            sgr_at(Style { fg: Color::Indexed((code - 30) as u8), ..s }, d, ps, i + 1)
        } else if code == 39 {
            sgr_at(Style { fg: d.fg, ..s }, d, ps, i + 1)
        } else if 40 <= code && code <= 47 {
            sgr_at(Style { bg: Color::Indexed((code - 40) as u8), ..s }, d, ps, i + 1)
        } else if code == 49 {
            sgr_at(Style { bg: d.bg, ..s }, d, ps, i + 1)
        } else if 90 <= code && code <= 97 {
            sgr_at(Style { fg: Color::Indexed((code - 90 + 8) as u8), ..s }, d, ps, i + 1)
        } else if 100 <= code && code <= 107 {
            sgr_at(Style { bg: Color::Indexed((code - 100 + 8) as u8), ..s }, d, ps, i + 1)
        } else if code == 38 || code == 48 {
            if i + 2 < ps.len() && ps[i + 1] == 5 && ps[i + 2] <= 255 {
                let c = Color::Indexed(ps[i + 2] as u8);
                if code == 38 {
                    sgr_at(Style { fg: c, ..s }, d, ps, i + 3)
                } else {
                    sgr_at(Style { bg: c, ..s }, d, ps, i + 3)
                }
            } else if i + 4 < ps.len() && ps[i + 1] == 2 && ps[i + 2] <= 255 && ps[i + 3] <= 255
                && ps[i + 4] <= 255 {
                let c = Color::Rgb(ps[i + 2] as u8, ps[i + 3] as u8, ps[i + 4] as u8);
                if code == 38 {
                    sgr_at(Style { fg: c, ..s }, d, ps, i + 5)
                } else {
                    sgr_at(Style { bg: c, ..s }, d, ps, i + 5)
                }
            } else {
                s
            }
        } else {
            sgr_at(s, d, ps, i + 1)
        }
    }
}

impl Term {
    /// Applies one SGR parameter list to the pen.
    #[verifier::rlimit(100)]
    #[verifier::spinoff_prover]
    pub fn select_graphics(&mut self, ps: &Vec<u16>)
        requires
            old(self).wf(),
        ensures
            final(self).wf(),
            *final(self) == (Term {
                style: sgr_at(old(self).style, old(self).default_style, ps@, 0),
                dirty: true,
                ..*old(self)
            }),
    {
        let d = self.default_style;
        self.dirty = true;
        let n = ps.len();
        let mut i: usize = 0;
        while i < n
            invariant
                old(self).wf(),
                n == ps@.len(),
                i <= n,
                d == self.default_style,
                sgr_at(old(self).style, old(self).default_style, ps@, 0) == sgr_at(
                    self.style,
                    d,
                    ps@,
                    i as int,
                ),
                *self == (Term { style: self.style, dirty: true, ..*old(self) }),
            decreases n - i,
        {
            let code = ps[i];
            if code == 0 {
                self.style = d;
                i = i + 1;
            } else if code == 1 {
                self.style.flags.bold = true;
                i = i + 1;
            } else if code == 3 {
                self.style.flags.italic = true;
                i = i + 1;
            } else if code == 4 {
                self.style.flags.underline = true;
                i = i + 1;
            } else if code == 7 {
                self.style.flags.inverse = true;
                i = i + 1;
            } else if code == 22 {
                self.style.flags.bold = false;
                i = i + 1;
            } else if code == 23 {
                self.style.flags.italic = false;
                i = i + 1;
            } else if code == 24 {
                self.style.flags.underline = false;
                i = i + 1;
            } else if code == 27 {
                self.style.flags.inverse = false;
                i = i + 1;
            } else if 30 <= code && code <= 37 {
                self.style.fg = Color::Indexed((code - 30) as u8);
                i = i + 1;
            } else if code == 39 {
                self.style.fg = d.fg;
                i = i + 1;
            } else if 40 <= code && code <= 47 {
                self.style.bg = Color::Indexed((code - 40) as u8);
                i = i + 1;
            } else if code == 49 {
                self.style.bg = d.bg;
                i = i + 1;
            } else if 90 <= code && code <= 97 {
                self.style.fg = Color::Indexed((code - 90 + 8) as u8);
                i = i + 1;
            } else if 100 <= code && code <= 107 {
                self.style.bg = Color::Indexed((code - 100 + 8) as u8);
                i = i + 1;
            } else if code == 38 || code == 48 {
                if n - i > 2 && ps[i + 1] == 5 && ps[i + 2] <= 255 {
                    let c = Color::Indexed(ps[i + 2] as u8);
                    if code == 38 {
                        self.style.fg = c;
                    } else {
                        self.style.bg = c;
                    }
                    i = i + 3;
                } else if n - i > 4 && ps[i + 1] == 2 && ps[i + 2] <= 255 && ps[i + 3] <= 255
                    && ps[i + 4] <= 255 {
                    let c = Color::Rgb(ps[i + 2] as u8, ps[i + 3] as u8, ps[i + 4] as u8);
                    if code == 38 {
                        self.style.fg = c;
                    } else {
                        self.style.bg = c;
                    }
                    i = i + 5;
                } else {
                    proof {
                        assert(!(i + 2 < ps@.len() && ps@[i as int + 1] == 5 && ps@[i as int
                            + 2] <= 255));
                        assert(!(i + 4 < ps@.len() && ps@[i as int + 1] == 2 && ps@[i as int
                            + 2] <= 255 && ps@[i as int + 3] <= 255 && ps@[i as int + 4] <= 255));
                        assert(sgr_at(self.style, d, ps@, i as int) == self.style);
                        assert(self.wf());
                    }
                    return ;
                }
            } else {
                i = i + 1;
            }
        }
        proof {
            assert(sgr_at(self.style, d, ps@, n as int) == self.style);
            assert(self.active == old(self).active);
            assert(self.inactive == old(self).inactive);
            assert(self.wf());
        }
    }

    /// Sets or resets one private mode, with its side effects; switching
    /// to or from the alternate screen swaps the two screens whole, so
    /// the primary content and scrollback survive untouched underneath.
    #[verifier::rlimit(100)]
    #[verifier::spinoff_prover]
    pub fn set_private_mode(&mut self, code: u16, on: bool)
        requires
            old(self).wf(),
        ensures
            final(self).wf(),
            mode_rel(*old(self), *final(self), code, on),
    {
        if code == 1 {
            self.modes.app_cursor = on;
            self.dirty = true;
        } else if code == 6 {
            self.modes.origin = on;
            self.cursor.row = if on {
                self.scroll_top
            } else {
                0
            };
            self.cursor.col = 0;
            self.input_needs_wrap = false;
            self.dirty = true;
        } else if code == 7 {
            self.modes.auto_wrap = on;
            self.dirty = true;
        } else if code == 25 {
            self.modes.show_cursor = on;
            self.dirty = true;
        } else if code == 2004 {
            self.modes.bracketed_paste = on;
            self.dirty = true;
        } else if code == 47 || code == 1047 || code == 1049 {
            if on != self.modes.alt_screen {
                if on {
                    self.enter_alt();
                } else {
                    self.exit_alt();
                }
            }
        }
    }

    /// Switches to the alternate screen: the primary screen is kept whole
    /// underneath, the cursor is saved, and a blank screen without
    /// scrollback takes over.
    fn enter_alt(&mut self)
        requires
            old(self).wf(),
            !old(self).modes.alt_screen,
        ensures
            final(self).wf(),
            enter_alt_rel(*old(self), *final(self)),
    {
        self.saved_cursor = self.cursor;
        self.saved_style = self.style;
        core::mem::swap(&mut self.active, &mut self.inactive);
        let rows = self.active.lines.len();
        let bg = self.style.bg;
        self.active.erase_rows(0, rows, bg);
        self.modes.alt_screen = true;
        self.dirty = true;
    }

    /// Switches back from the alternate screen: the primary screen comes
    /// back exactly as it was kept, scrollback included, and the saved
    /// cursor returns.
    fn exit_alt(&mut self)
        requires
            old(self).wf(),
            old(self).modes.alt_screen,
        ensures
            final(self).wf(),
            exit_alt_rel(*old(self), *final(self)),
    {
        core::mem::swap(&mut self.active, &mut self.inactive);
        self.cursor = self.saved_cursor;
        self.modes.alt_screen = false;
        self.dirty = true;
    }

    /// Sets the scrolling region from one-based bounds (zero meaning the
    /// default edge) and homes the cursor; an empty or reversed region is
    /// ignored.
    pub fn set_scroll_region(&mut self, top1: u16, bottom1: u16)
        requires
            old(self).wf(),
        ensures
            final(self).wf(),
            region_rel(*old(self), *final(self), top1, bottom1),
    {
        let rows = self.active.lines.len();
        let t: usize = if top1 >= 1 {
            (top1 - 1) as usize
        } else {
            0
        };
        let b: usize = if bottom1 == 0 || bottom1 as usize > rows {
            rows - 1
        } else {
            (bottom1 - 1) as usize
        };
        if t < b {
            self.scroll_top = t;
            self.scroll_bottom = b;
            let home_row = if self.modes.origin {
                t
            } else {
                0
            };
            self.jump(home_row, 0);
        }
    }

    /// Stores the title bytes an OSC sequence carried.
    pub fn set_title(&mut self, bytes: Vec<u8>)
        requires
            old(self).wf(),
        ensures
            final(self).wf(),
            final(self).title is Some,
            final(self).title->0@ == bytes@,
            *final(self) == (Term { title: final(self).title, dirty: true, ..*old(self) }),
    {
        self.title = Some(bytes);
        self.dirty = true;
    }

    /// One cell of the visible region, read with clamped indices: the
    /// render consumer's snapshot, position by position.
    pub fn snapshot_cell(&self, row: usize, col: usize) -> (r: Cell)
        requires
            self.wf(),
        ensures
            r == self.active.cell(
                if row < self.active.rows() {
                    row as int
                } else {
                    self.active.rows() - 1
                },
                if col < self.active.cols {
                    col as int
                } else {
                    self.active.cols - 1
                },
            ),
    {
        self.active.get(row, col)
    }

    /// Whether content changed since the last read; reading clears it.
    pub fn take_dirty(&mut self) -> (r: bool)
        requires
            old(self).wf(),
        ensures
            final(self).wf(),
            r == old(self).dirty,
            *final(self) == (Term { dirty: false, ..*old(self) }),
    {
        let r = self.dirty;
        self.dirty = false;
        r
    }

    /// Whether a bell rang since the last read; reading clears it.
    pub fn take_bell(&mut self) -> (r: bool)
        requires
            old(self).wf(),
        ensures
            final(self).wf(),
            r == old(self).bell,
            *final(self) == (Term { bell: false, ..*old(self) }),
    {
        let r = self.bell;
        self.bell = false;
        r
    }

    /// The pending title change, if any; reading takes it.
    pub fn take_title(&mut self) -> (r: Option<Vec<u8>>)
        requires
            old(self).wf(),
        ensures
            final(self).wf(),
            r == old(self).title,
            *final(self) == (Term { title: None, ..*old(self) }),
    {
        let mut r: Option<Vec<u8>> = None;
        core::mem::swap(&mut r, &mut self.title);
        r
    }

    /// Resizes the terminal: both screens are brought to the new
    /// dimensions, the cursor follows its line as far as possible and is
    /// clamped inside, the scrolling region returns to the whole screen
    /// and the tab stops return to their default interval. Resizing to
    /// the dimensions the terminal already has changes nothing at all.
    pub fn resize(&mut self, rows: usize, cols: usize)
        requires
            old(self).wf(),
            1 <= rows <= 0xFFFF,
            1 <= cols <= 0xFFFF,
        ensures
            final(self).wf(),
            rows == old(self).active.rows() && cols == old(self).active.cols ==> *final(self)
                == *old(self),
            final(self).active.rows() == rows,
            final(self).active.cols == cols,
            final(self).active.max_scrollback == old(self).active.max_scrollback,
            final(self).modes == old(self).modes,
            final(self).style == old(self).style,
            final(self).title == old(self).title,
            rows != old(self).active.rows() || cols != old(self).active.cols ==> ({
                &&& final(self).scroll_top == 0
                &&& final(self).scroll_bottom == rows - 1
                &&& forall|i: int|
                    0 <= i < cols ==> final(self).tabs@[i] == default_tab(
                        i,
                        old(self).tab_interval as int,
                    )
                &&& final(self).active.history() == crate::grid::fit_rows(
                    old(self).active.history().take(
                        old(self).active.history().len() - old(self).active.pulled_rows(
                            rows as int,
                        ),
                    ),
                    cols as int,
                    old(self).style.bg,
                )
                &&& forall|r: int|
                    old(self).active.pulled_rows(rows as int) <= r < rows
                        && r - old(self).active.pulled_rows(rows as int)
                        < old(self).active.rows() ==> final(self).active.cell_row(r)
                        == crate::grid::fit_row(
                        old(self).active.cell_row(r - old(self).active.pulled_rows(rows as int)),
                        cols as int,
                        old(self).style.bg,
                    )
            }),
    {
        if rows == self.active.lines.len() && cols == self.active.cols {
            return ;
        }
        let bg = self.style.bg;
        let pulled = self.active.resize(rows, cols, bg);
        let _ = self.inactive.resize(rows, cols, bg);
        // The cursor follows its line downward by the pulled rows, then
        // clamps inside the new screen; so does the saved cursor.
        let r1 = if self.cursor.row + pulled < rows {
            self.cursor.row + pulled
        } else {
            rows - 1
        };
        let c1 = if self.cursor.col < cols {
            self.cursor.col
        } else {
            cols - 1
        };
        self.cursor = Cursor { row: r1, col: c1 };
        let r2 = if self.saved_cursor.row + pulled < rows {
            self.saved_cursor.row + pulled
        } else {
            rows - 1
        };
        let c2 = if self.saved_cursor.col < cols {
            self.saved_cursor.col
        } else {
            cols - 1
        };
        self.saved_cursor = Cursor { row: r2, col: c2 };
        self.scroll_top = 0;
        self.scroll_bottom = rows - 1;
        let interval = self.tab_interval;
        self.tabs = build_tabs(cols, interval);
        self.input_needs_wrap = false;
        self.dirty = true;
    }
}

/// Setting the scrolling region from one-based bounds: what it does to the
/// terminal.
pub open spec fn region_rel(t0: Term, t1: Term, top1: u16, bottom1: u16) -> bool {
    let rows = t0.active.rows();
    let t: int = if top1 >= 1 {
        top1 - 1
    } else {
        0
    };
    let b: int = if bottom1 == 0 || bottom1 > rows {
        rows - 1
    } else {
        bottom1 - 1
    };
    if t < b {
        t1 == (Term {
            scroll_top: t as usize,
            scroll_bottom: b as usize,
            cursor: Cursor {
                row: if t0.modes.origin {
                    t as usize
                } else {
                    0
                },
                col: 0,
            },
            input_needs_wrap: false,
            dirty: true,
            ..t0
        })
    } else {
        t1 == t0
    }
}

/// `next_tab` stays within the columns.
proof fn lemma_next_tab_bounds(tabs: Seq<bool>, col: int)
    requires
        tabs.len() >= 1,
        0 <= col,
    ensures
        0 <= next_tab(tabs, col) <= tabs.len() - 1,
        col < tabs.len() ==> col <= next_tab(tabs, col),
    decreases tabs.len() - col,
{
    if col + 1 >= tabs.len() {
    } else if tabs[col + 1] {
    } else {
        lemma_next_tab_bounds(tabs, col + 1);
    }
}

/// Scans for the next tab stop after `col`.
fn tab_scan(tabs: &Vec<bool>, col: usize) -> (r: usize)
    requires
        tabs@.len() >= 1,
        col < tabs@.len(),
    ensures
        r == next_tab(tabs@, col as int),
        r < tabs@.len(),
    decreases tabs@.len() - col,
{
    proof {
        lemma_next_tab_bounds(tabs@, col as int);
    }
    if col >= tabs.len() - 1 {
        tabs.len() - 1
    } else if tabs[col + 1] {
        col + 1
    } else {
        tab_scan(tabs, col + 1)
    }
}

/// Builds the default tab stops: one every `interval` columns.
fn build_tabs(cols: usize, interval: usize) -> (r: Vec<bool>)
    requires
        interval >= 1,
    ensures
        r@.len() == cols,
        forall|i: int| 0 <= i < cols ==> r@[i] == default_tab(i, interval as int),
{
    let mut r: Vec<bool> = Vec::new();
    let mut i: usize = 0;
    while i < cols
        invariant
            interval >= 1,
            i <= cols,
            r@.len() == i,
            forall|k: int| 0 <= k < i ==> r@[k] == default_tab(k, interval as int),
        decreases cols - i,
    {
        r.push(i > 0 && i % interval == 0);
        i = i + 1;
    }
    r
}

/// One parameter with a default: zero or missing means the default.
pub open spec fn arg_or(ps: Seq<u16>, i: int, def: u16) -> u16 {
    if 0 <= i < ps.len() && ps[i] != 0 {
        ps[i]
    } else {
        def
    }
}

/// One parameter taken raw: missing means zero.
pub open spec fn arg_raw(ps: Seq<u16>, i: int) -> u16 {
    if 0 <= i < ps.len() {
        ps[i]
    } else {
        0
    }
}

/// One parameterized control sequence applied to the terminal: cursor
/// movement and addressing, erase in line and display, graphics
/// selection, the scrolling region, private mode set and reset, and tab
/// clearing. Every other final byte changes nothing.
pub open spec fn csi_rel(t0: Term, t1: Term, ps: Seq<u16>, inters: Seq<u8>, fin: u8) -> bool {
    let n1 = arg_or(ps, 0, 1) as int;
    let private = inters.len() > 0 && inters[0] == 0x3F;
    if fin == 0x41 {
        t1 == (Term {
            cursor: Cursor {
                row: if t0.cursor.row - n1 >= t0.row_floor() && t0.cursor.row >= t0.row_floor() {
                    (t0.cursor.row - n1) as usize
                } else if t0.cursor.row >= t0.row_floor() {
                    t0.row_floor() as usize
                } else {
                    0
                },
                col: t0.cursor.col,
            },
            input_needs_wrap: false,
            dirty: true,
            ..t0
        })
    } else if fin == 0x42 || fin == 0x65 {
        t1 == (Term {
            cursor: Cursor {
                row: if t0.cursor.row + n1 <= t0.row_ceil() {
                    (t0.cursor.row + n1) as usize
                } else if t0.cursor.row <= t0.row_ceil() {
                    t0.row_ceil() as usize
                } else {
                    t0.cursor.row
                },
                col: t0.cursor.col,
            },
            input_needs_wrap: false,
            dirty: true,
            ..t0
        })
    } else if fin == 0x43 || fin == 0x61 {
        t1 == (Term {
            cursor: Cursor {
                row: t0.cursor.row,
                col: if t0.cursor.col + n1 < t0.active.cols {
                    (t0.cursor.col + n1) as usize
                } else {
                    (t0.active.cols - 1) as usize
                },
            },
            input_needs_wrap: false,
            dirty: true,
            ..t0
        })
    } else if fin == 0x44 {
        t1 == (Term {
            cursor: Cursor {
                row: t0.cursor.row,
                col: if t0.cursor.col >= n1 {
                    (t0.cursor.col - n1) as usize
                } else {
                    0
                },
            },
            input_needs_wrap: false,
            dirty: true,
            ..t0
        })
    } else if fin == 0x47 || fin == 0x60 {
        goto_rel(t0, t1, t0.cursor.row + 1, n1)
    } else if fin == 0x64 {
        goto_rel(t0, t1, ({
            let want = n1 - t0.row_floor();
            if want >= 1 {
                want
            } else {
                1
            }
        }), t0.cursor.col + 1)
    } else if fin == 0x48 || fin == 0x66 {
        goto_rel(t0, t1, arg_or(ps, 0, 1) as int, arg_or(ps, 1, 1) as int)
    } else if fin == 0x4A {
        erase_display_rel(t0, t1, arg_raw(ps, 0))
    } else if fin == 0x4B {
        erase_line_rel(t0, t1, arg_raw(ps, 0))
    } else if fin == 0x6D {
        t1 == (Term { style: sgr_at(t0.style, t0.default_style, ps, 0), dirty: true, ..t0 })
    } else if fin == 0x72 {
        region_rel(t0, t1, arg_raw(ps, 0), arg_raw(ps, 1))
    } else if fin == 0x68 && private {
        mode_rel(t0, t1, arg_raw(ps, 0), true)
    } else if fin == 0x6C && private {
        mode_rel(t0, t1, arg_raw(ps, 0), false)
    } else if fin == 0x71 && inters.len() == 1 && inters[0] == 0x20 {
        t1 == (Term { cursor_shape: shape_of(arg_raw(ps, 0)), dirty: true, ..t0 })
    } else if fin == 0x67 {
        let p = arg_raw(ps, 0);
        if p == 0 || p == 3 {
            &&& t1.tabs@.len() == t0.tabs@.len()
            &&& forall|i: int|
                0 <= i < t0.tabs@.len() ==> t1.tabs@[i] == (if p == 3 {
                    false
                } else if i == t0.cursor.col {
                    false
                } else {
                    t0.tabs@[i]
                })
            &&& t1 == (Term { tabs: t1.tabs, ..t0 })
        } else {
            t1 == t0
        }
    } else {
        t1 == t0
    }
}

/// One escape sequence applied to the terminal: cursor save and restore,
/// index and reverse index, next line, and a tab stop at the cursor.
/// Every other sequence changes nothing.
pub open spec fn esc_rel(t0: Term, t1: Term, inters: Seq<u8>, fin: u8) -> bool {
    if inters.len() != 0 {
        t1 == t0
    } else if fin == 0x37 {
        t1 == (Term { saved_cursor: t0.cursor, saved_style: t0.style, ..t0 })
    } else if fin == 0x38 {
        t1 == (Term {
            cursor: t0.saved_cursor,
            style: t0.saved_style,
            input_needs_wrap: false,
            dirty: true,
            ..t0
        })
    } else if fin == 0x44 {
        feed_rel(t0, t1, false, false)
    } else if fin == 0x45 {
        feed_rel(t0, t1, false, true)
    } else if fin == 0x4D {
        reverse_rel(t0, t1)
    } else if fin == 0x48 {
        &&& t1.tabs@ == t0.tabs@.update(t0.cursor.col as int, true)
        &&& t1 == (Term { tabs: t1.tabs, ..t0 })
    } else {
        t1 == t0
    }
}

/// One operating-system command applied to the terminal: commands 0 and 2
/// store the window title. Every other command changes nothing.
pub open spec fn osc_rel(t0: Term, t1: Term, ps: Seq<Seq<u8>>) -> bool {
    if ps.len() >= 1 && (ps[0] == seq![0x30u8] || ps[0] == seq![0x32u8]) {
        &&& t1.title is Some
        &&& t1.title->0@ == (if ps.len() >= 2 {
            ps[1]
        } else {
            Seq::<u8>::empty()
        })
        &&& t1 == (Term { title: t1.title, dirty: true, ..t0 })
    } else {
        t1 == t0
    }
}

/// One decoded action applied to the terminal, the heart of the state
/// machine: printing, the C0 controls, control sequences, escape
/// sequences and operating-system commands, each as its own relation.
/// Unrecognised actions change nothing: they never corrupt state.
pub open spec fn apply_rel(t0: Term, t1: Term, a: ActionV) -> bool {
    match a {
        ActionV::Print(c) => print_rel(t0, t1, c),
        ActionV::Execute(b) => {
            if b == 0x0A || b == 0x0B || b == 0x0C {
                feed_rel(t0, t1, false, false)
            } else if b == 0x0D {
                t1 == (Term {
                    cursor: Cursor { row: t0.cursor.row, col: 0 },
                    input_needs_wrap: false,
                    dirty: true,
                    ..t0
                })
            } else if b == 0x08 {
                t1 == (Term {
                    cursor: Cursor {
                        row: t0.cursor.row,
                        col: if t0.cursor.col > 0 {
                            (t0.cursor.col - 1) as usize
                        } else {
                            0
                        },
                    },
                    input_needs_wrap: false,
                    dirty: true,
                    ..t0
                })
            } else if b == 0x09 {
                t1 == (Term {
                    cursor: Cursor {
                        row: t0.cursor.row,
                        col: next_tab(t0.tabs@, t0.cursor.col as int) as usize,
                    },
                    input_needs_wrap: false,
                    dirty: true,
                    ..t0
                })
            } else if b == 0x07 {
                t1 == (Term { bell: true, dirty: true, ..t0 })
            } else {
                t1 == t0
            }
        },
        ActionV::CsiDispatch(ps, inters, fin) => csi_rel(t0, t1, ps, inters, fin),
        ActionV::EscDispatch(inters, fin) => esc_rel(t0, t1, inters, fin),
        ActionV::OscDispatch(ps) => osc_rel(t0, t1, ps),
        ActionV::DcsHook(_, _, _) => t1 == t0,
        ActionV::DcsPut(_) => t1 == t0,
        ActionV::DcsUnhook => t1 == t0,
    }
}

/// Copies a byte string.
fn copy_bytes(v: &Vec<u8>) -> (r: Vec<u8>)
    ensures
        r@ == v@,
{
    let mut r: Vec<u8> = Vec::new();
    let mut i: usize = 0;
    while i < v.len()
        invariant
            i <= v@.len(),
            r@.len() == i,
            forall|k: int| 0 <= k < i ==> r@[k] == v@[k],
        decreases v@.len() - i,
    {
        r.push(v[i]);
        i = i + 1;
    }
    proof {
        assert(r@ =~= v@);
    }
    r
}

impl Term {
    /// One u16 parameter with a default.
    fn param_or(ps: &Vec<u16>, i: usize, def: u16) -> (r: u16)
        ensures
            r == arg_or(ps@, i as int, def),
    {
        if i < ps.len() && ps[i] != 0 {
            ps[i]
        } else {
            def
        }
    }

    /// One u16 parameter taken raw.
    fn param_raw(ps: &Vec<u16>, i: usize) -> (r: u16)
        ensures
            r == arg_raw(ps@, i as int),
    {
        if i < ps.len() {
            ps[i]
        } else {
            0
        }
    }

    /// One control sequence.
    fn csi(&mut self, ps: &Vec<u16>, inters: &Vec<u8>, fin: u8)
        requires
            old(self).wf(),
        ensures
            final(self).wf(),
            csi_rel(*old(self), *final(self), ps@, inters@, fin),
    {
        let n1 = Term::param_or(ps, 0, 1);
        let private = inters.len() > 0 && inters[0] == 0x3F;
        if fin == 0x41 {
            self.cursor_up(n1 as usize);
        } else if fin == 0x42 || fin == 0x65 {
            self.cursor_down(n1 as usize);
        } else if fin == 0x43 || fin == 0x61 {
            self.cursor_forward(n1 as usize);
        } else if fin == 0x44 {
            self.cursor_back(n1 as usize);
        } else if fin == 0x47 || fin == 0x60 {
            let row1 = self.cursor.row + 1;
            self.goto(row1, n1 as usize);
        } else if fin == 0x64 {
            let floor: usize = if self.modes.origin {
                self.scroll_top
            } else {
                0
            };
            let want: usize = if n1 as usize > floor {
                n1 as usize - floor
            } else {
                1
            };
            let col1 = self.cursor.col + 1;
            self.goto(want, col1);
        } else if fin == 0x48 || fin == 0x66 {
            let row1 = Term::param_or(ps, 0, 1);
            let col1 = Term::param_or(ps, 1, 1);
            self.goto(row1 as usize, col1 as usize);
        } else if fin == 0x4A {
            let m = Term::param_raw(ps, 0);
            self.erase_display(m);
        } else if fin == 0x4B {
            let m = Term::param_raw(ps, 0);
            self.erase_line(m);
        } else if fin == 0x6D {
            self.select_graphics(ps);
        } else if fin == 0x72 {
            let t = Term::param_raw(ps, 0);
            let b = Term::param_raw(ps, 1);
            self.set_scroll_region(t, b);
        } else if fin == 0x68 && private {
            let c = Term::param_raw(ps, 0);
            self.set_private_mode(c, true);
        } else if fin == 0x6C && private {
            let c = Term::param_raw(ps, 0);
            self.set_private_mode(c, false);
        } else if fin == 0x71 && inters.len() == 1 && inters[0] == 0x20 {
            let p = Term::param_raw(ps, 0);
            self.cursor_shape = if p == 3 || p == 4 {
                CursorShape::Underline
            } else if p == 5 || p == 6 {
                CursorShape::Beam
            } else {
                CursorShape::Block
            };
            self.dirty = true;
        } else if fin == 0x67 {
            let p = Term::param_raw(ps, 0);
            if p == 0 {
                self.clear_tab_stops(false);
            } else if p == 3 {
                self.clear_tab_stops(true);
            }
        }
    }

    /// One decoded action, applied in order of arrival; the contract says
    /// exactly what every recognised action does, and that every
    /// unrecognised one changes nothing.
    pub fn apply(&mut self, a: &Action)
        requires
            old(self).wf(),
        ensures
            final(self).wf(),
            apply_rel(*old(self), *final(self), a@),
    {
        match a {
            Action::Print(c) => {
                self.print_char(*c);
            },
            Action::Execute(b) => {
                let b = *b;
                if b == 0x0A || b == 0x0B || b == 0x0C {
                    self.linefeed();
                } else if b == 0x0D {
                    self.carriage_return();
                } else if b == 0x08 {
                    self.backspace();
                } else if b == 0x09 {
                    self.tab();
                } else if b == 0x07 {
                    self.ring_bell();
                }
            },
            Action::CsiDispatch(ps, inters, fin) => {
                self.csi(ps, inters, *fin);
            },
            Action::EscDispatch(inters, fin) => {
                let fin = *fin;
                if inters.len() != 0 {
                } else if fin == 0x37 {
                    self.save_cursor();
                } else if fin == 0x38 {
                    self.restore_cursor();
                } else if fin == 0x44 {
                    self.linefeed();
                } else if fin == 0x45 {
                    self.feed_line(false, true);
                } else if fin == 0x4D {
                    self.reverse_feed();
                } else if fin == 0x48 {
                    self.set_tab_stop();
                }
            },
            Action::OscDispatch(ps) => {
                if ps.len() >= 1 {
                    let cmd = &ps[0];
                    if cmd.len() == 1 && (cmd[0] == 0x30 || cmd[0] == 0x32) {
                        let bytes: Vec<u8> = if ps.len() >= 2 {
                            copy_bytes(&ps[1])
                        } else {
                            Vec::new()
                        };
                        proof {
                            assert(bytes_view(ps@)[0] == ps@[0]@);
                            if ps@.len() >= 2 {
                                assert(bytes_view(ps@)[1] == ps@[1]@);
                            }
                            assert(ps@[0]@ =~= seq![ps@[0]@[0]]);
                        }
                        self.set_title(bytes);
                    }
                }
            },
            Action::DcsHook(_, _, _) => {},
            Action::DcsPut(_) => {},
            Action::DcsUnhook => {},
        }
    }
}

} // verus!
