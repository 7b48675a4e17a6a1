//! The grid: the visible lines of the screen plus a bounded scrollback
//! history, with region-addressed reads and mutation primitives.

use vstd::prelude::*;
use crate::cell::{blank_cell, blank_cell_spec, Cell, Color};

verus! {

/// One screen line: a fixed number of cells and a flag saying whether the
/// line continues on the next one (set when printing wrapped).
pub struct Line {
    pub cells: Vec<Cell>,
    pub wrapped: bool,
}

/// A line of blanks carrying the given background.
pub open spec fn line_blank(l: Line, cols: int, bg: Color) -> bool {
    &&& l.cells@.len() == cols
    &&& !l.wrapped
    &&& forall|j: int| 0 <= j < cols ==> l.cells@[j] == blank_cell_spec(bg)
}

/// Builds a line of blanks.
pub fn blank_line(cols: usize, bg: Color) -> (r: Line)
    ensures
        line_blank(r, cols as int, bg),
{
    let mut cells: Vec<Cell> = Vec::new();
    let mut j: usize = 0;
    while j < cols
        invariant
            j <= cols,
            cells@.len() == j,
            forall|k: int| 0 <= k < j ==> cells@[k] == blank_cell_spec(bg),
        decreases cols - j,
    {
        cells.push(blank_cell(bg));
        j = j + 1;
    }
    Line { cells, wrapped: false }
}

/// What the scrollback keeps after one more line enters it: the new line at
/// the end, and, when the bound is reached, the oldest line gone first.
pub open spec fn pushed_history(h: Seq<Seq<Cell>>, l: Seq<Cell>, max: int) -> Seq<Seq<Cell>> {
    if max <= 0 {
        h
    } else if h.len() < max {
        h.push(l)
    } else {
        h.drop_first().push(l)
    }
}

/// The scrollback after several lines enter it, oldest first.
pub open spec fn pushed_history_all(h: Seq<Seq<Cell>>, ls: Seq<Seq<Cell>>, max: int)
    -> Seq<Seq<Cell>>
    decreases ls.len(),
{
    if ls.len() == 0 {
        h
    } else {
        pushed_history_all(pushed_history(h, ls.first(), max), ls.drop_first(), max)
    }
}

/// The scrollback bound holds however many lines enter: the history never
/// grows past the bound, and what it keeps is exactly the most recent tail
/// of all lines ever held, oldest first.
pub proof fn lemma_history_bound(h: Seq<Seq<Cell>>, ls: Seq<Seq<Cell>>, max: int)
    requires
        h.len() <= max,
    ensures
        pushed_history_all(h, ls, max).len() <= max,
        (h + ls).len() <= max ==> pushed_history_all(h, ls, max) == h + ls,
        (h + ls).len() > max ==> pushed_history_all(h, ls, max) == (h + ls).skip(
            (h + ls).len() - max,
        ),
    decreases ls.len(),
{
    if ls.len() == 0 {
        assert(h + ls =~= h);
        if (h + ls).len() > max {
            assert(pushed_history_all(h, ls, max) =~= (h + ls).skip((h + ls).len() - max));
        }
    } else {
        let h1 = pushed_history(h, ls.first(), max);
        lemma_history_bound(h1, ls.drop_first(), max);
        assert(h1 + ls.drop_first() =~= if max <= 0 {
            h + ls.drop_first()
        } else if h.len() < max {
            h + ls
        } else {
            (h + ls).skip(1)
        });
        if max <= 0 {
            lemma_history_drop_all(h, ls, max);
        } else if h.len() < max {
        } else {
            assert((h1 + ls.drop_first()).len() == (h + ls).len() - 1);
            if (h + ls).len() - 1 > max {
                assert((h + ls).skip(1).skip((h + ls).len() - 1 - max) =~= (h + ls).skip(
                    (h + ls).len() - max,
                ));
            } else {
                assert((h + ls).skip(1) =~= (h + ls).skip((h + ls).len() - max));
            }
        }
    }
}

/// One line entering the scrollback, written with the general form.
pub proof fn lemma_pushed_all_one(h: Seq<Seq<Cell>>, l: Seq<Cell>, max: int)
    ensures
        pushed_history_all(h, seq![l], max) == pushed_history(h, l, max),
{
    reveal_with_fuel(pushed_history_all, 2);
    assert(seq![l].drop_first() =~= Seq::<Seq<Cell>>::empty());
    assert(seq![l].first() == l);
}

/// With no scrollback at all, nothing is ever kept.
proof fn lemma_history_drop_all(h: Seq<Seq<Cell>>, ls: Seq<Seq<Cell>>, max: int)
    requires
        max <= 0,
    ensures
        pushed_history_all(h, ls, max) == h,
    decreases ls.len(),
{
    if ls.len() > 0 {
        lemma_history_drop_all(h, ls.drop_first(), max);
    }
}

/// The cell contents of a list of lines.
pub open spec fn history_of(s: Seq<Line>) -> Seq<Seq<Cell>> {
    s.map_values(|l: Line| l.cells@)
}

/// Appending one more line snocs onto `pushed_history_all`.
proof fn lemma_pushed_all_snoc(h: Seq<Seq<Cell>>, ls: Seq<Seq<Cell>>, x: Seq<Cell>, max: int)
    ensures
        pushed_history_all(h, ls.push(x), max) == pushed_history(
            pushed_history_all(h, ls, max),
            x,
            max,
        ),
    decreases ls.len(),
{
    reveal_with_fuel(pushed_history_all, 3);
    if ls.len() == 0 {
        assert(ls.push(x).first() == x);
        assert(ls.push(x).drop_first() =~= Seq::<Seq<Cell>>::empty());
    } else {
        assert(ls.push(x).first() == ls.first());
        assert(ls.push(x).drop_first() =~= ls.drop_first().push(x));
        lemma_pushed_all_snoc(pushed_history(h, ls.first(), max), ls.drop_first(), x, max);
    }
}

/// A row brought to a new width: truncated on the right, or padded with
/// blanks carrying `bg`.
pub open spec fn fit_row(r: Seq<Cell>, cols: int, bg: Color) -> Seq<Cell> {
    if r.len() >= cols {
        r.take(cols)
    } else {
        r + Seq::new((cols - r.len()) as nat, |j: int| blank_cell_spec(bg))
    }
}

/// Every row of a history brought to a new width.
pub open spec fn fit_rows(h: Seq<Seq<Cell>>, cols: int, bg: Color) -> Seq<Seq<Cell>> {
    h.map_values(|r: Seq<Cell>| fit_row(r, cols, bg))
}

/// A fitted row has exactly the asked-for width.
proof fn lemma_fit_row_len(r: Seq<Cell>, cols: int, bg: Color)
    requires
        cols >= 0,
    ensures
        fit_row(r, cols, bg).len() == cols,
{
}

/// Builds a copy of a line at a new width. A line that is cut or widened
/// loses its wrapped flag: its continuation no longer lines up.
fn fit_line(l: &Line, cols: usize, bg: Color) -> (r: Line)
    ensures
        r.cells@ == fit_row(l.cells@, cols as int, bg),
        r.wrapped == (l.wrapped && l.cells@.len() == cols),
{
    let mut cells: Vec<Cell> = Vec::new();
    let keep: usize = if l.cells.len() < cols {
        l.cells.len()
    } else {
        cols
    };
    let mut j: usize = 0;
    while j < keep
        invariant
            j <= keep,
            keep <= l.cells@.len(),
            keep <= cols,
            cells@.len() == j,
            forall|x: int| 0 <= x < j ==> cells@[x] == l.cells@[x],
        decreases keep - j,
    {
        cells.push(l.cells[j]);
        j = j + 1;
    }
    while j < cols
        invariant
            keep <= j <= cols,
            keep <= l.cells@.len(),
            cells@.len() == j,
            forall|x: int| 0 <= x < keep ==> cells@[x] == l.cells@[x],
            forall|x: int| keep <= x < j ==> cells@[x] == blank_cell_spec(bg),
        decreases cols - j,
    {
        cells.push(blank_cell(bg));
        j = j + 1;
    }
    proof {
        assert(cells@ =~= fit_row(l.cells@, cols as int, bg));
    }
    let wrapped = l.wrapped && l.cells.len() == cols;
    Line { cells, wrapped }
}

/// The 2-D cell buffer: the visible region, always exactly `rows x cols`,
/// plus the bounded scrollback history, oldest line first.
pub struct Grid {
    pub lines: Vec<Line>,
    pub scrollback: Vec<Line>,
    pub cols: usize,
    pub max_scrollback: usize,
}

impl Grid {
    pub open spec fn rows(self) -> int {
        self.lines@.len() as int
    }

    /// The cell at a position.
    pub open spec fn cell(self, i: int, j: int) -> Cell {
        self.lines@[i].cells@[j]
    }

    /// Whether the line continues on the next one.
    pub open spec fn wrapped(self, i: int) -> bool {
        self.lines@[i].wrapped
    }

    /// The scrollback contents, oldest first.
    pub open spec fn history(self) -> Seq<Seq<Cell>> {
        history_of(self.scrollback@)
    }

    /// Well-formed: at least one row and column, both small enough to index
    /// freely, every visible and scrollback line of the grid's width, and
    /// the history within its bound.
    pub open spec fn wf(self) -> bool {
        &&& 1 <= self.rows() <= 0xFFFF
        &&& 1 <= self.cols <= 0xFFFF
        &&& forall|i: int| 0 <= i < self.rows() ==> (#[trigger] self.lines@[i]).cells@.len()
            == self.cols
        &&& self.scrollback@.len() <= self.max_scrollback
        &&& forall|i: int|
            0 <= i < self.scrollback@.len() ==> (#[trigger] self.scrollback@[i]).cells@.len()
                == self.cols
    }

    /// Row `i` holds blanks carrying `bg` and no wrapped flag.
    pub open spec fn row_blank(self, i: int, bg: Color) -> bool {
        line_blank(self.lines@[i], self.cols as int, bg)
    }

    /// Rows `i` and `j` of the two grids agree, cells and wrapped flag.
    pub open spec fn row_same(self, other: Grid, i: int) -> bool {
        &&& self.lines@[i].cells@ == other.lines@[i].cells@
        &&& self.lines@[i].wrapped == other.lines@[i].wrapped
    }

    /// The two grids show the same screen: same dimensions, cells, wrapped
    /// flags.
    pub open spec fn same_screen(self, other: Grid) -> bool {
        &&& self.rows() == other.rows()
        &&& self.cols == other.cols
        &&& forall|i: int| 0 <= i < self.rows() ==> self.row_same(other, i)
    }

    /// A fresh grid: all blank, empty scrollback.
    pub fn new(rows: usize, cols: usize, max_scrollback: usize, bg: Color) -> (g: Grid)
        requires
            1 <= rows <= 0xFFFF,
            1 <= cols <= 0xFFFF,
        ensures
            g.wf(),
            g.rows() == rows,
            g.cols == cols,
            g.max_scrollback == max_scrollback,
            g.history().len() == 0,
            forall|i: int| 0 <= i < rows ==> g.row_blank(i, bg),
    {
        let mut lines: Vec<Line> = Vec::new();
        let mut i: usize = 0;
        while i < rows
            invariant
                i <= rows,
                lines@.len() == i,
                forall|k: int| 0 <= k < i ==> line_blank(#[trigger] lines@[k], cols as int, bg),
            decreases rows - i,
        {
            lines.push(blank_line(cols, bg));
            i = i + 1;
        }
        Grid { lines, scrollback: Vec::new(), cols, max_scrollback }
    }

    /// Region-addressed read, clamped to the grid bounds.
    pub fn get(&self, row: usize, col: usize) -> (r: Cell)
        requires
            self.wf(),
        ensures
            r == self.cell(
                if row < self.rows() { row as int } else { self.rows() - 1 },
                if col < self.cols { col as int } else { self.cols - 1 },
            ),
    {
        let ri = if row < self.lines.len() { row } else { self.lines.len() - 1 };
        let ci = if col < self.cols { col } else { self.cols - 1 };
        self.lines[ri].cells[ci]
    }

    /// Writes one cell.
    pub fn set(&mut self, row: usize, col: usize, c: Cell)
        requires
            old(self).wf(),
            row < old(self).rows(),
            col < old(self).cols,
        ensures
            final(self).wf(),
            final(self).rows() == old(self).rows(),
            final(self).cols == old(self).cols,
            final(self).max_scrollback == old(self).max_scrollback,
            final(self).cell(row as int, col as int) == c,
            forall|i: int, j: int|
                0 <= i < old(self).rows() && 0 <= j < old(self).cols && !(i == row && j == col)
                    ==> final(self).cell(i, j) == old(self).cell(i, j),
            forall|i: int| 0 <= i < old(self).rows() ==> final(self).wrapped(i) == old(self).wrapped(i),
            forall|i: int|
                0 <= i < old(self).rows() && i != row ==> final(self).lines@[i] == old(
                    self,
                ).lines@[i],
            final(self).scrollback@ == old(self).scrollback@,
    {
        self.lines[row].cells[col] = c;
    }

    /// Sets or clears the wrapped flag of a row.
    pub fn set_wrapped(&mut self, row: usize, w: bool)
        requires
            old(self).wf(),
            row < old(self).rows(),
        ensures
            final(self).wf(),
            final(self).rows() == old(self).rows(),
            final(self).cols == old(self).cols,
            final(self).max_scrollback == old(self).max_scrollback,
            final(self).wrapped(row as int) == w,
            forall|i: int|
                0 <= i < old(self).rows() && i != row ==> final(self).wrapped(i) == old(self).wrapped(i),
            forall|i: int, j: int|
                0 <= i < old(self).rows() && 0 <= j < old(self).cols ==> final(self).cell(i, j)
                    == old(self).cell(i, j),
            forall|i: int|
                0 <= i < old(self).rows() ==> (#[trigger] final(self).cell_row(i)) == old(
                    self,
                ).cell_row(i),
            forall|i: int|
                0 <= i < old(self).rows() && i != row ==> final(self).lines@[i] == old(
                    self,
                ).lines@[i],
            final(self).scrollback@ == old(self).scrollback@,
    {
        self.lines[row].wrapped = w;
    }

    /// Overwrites the cells of row `row` in columns `[from, to)` with
    /// blanks carrying `bg`; the wrapped flag stays.
    pub fn erase_row_range(&mut self, row: usize, from: usize, to: usize, bg: Color)
        requires
            old(self).wf(),
            row < old(self).rows(),
            from <= to <= old(self).cols,
        ensures
            final(self).wf(),
            final(self).rows() == old(self).rows(),
            final(self).cols == old(self).cols,
            final(self).max_scrollback == old(self).max_scrollback,
            forall|j: int|
                from <= j < to ==> final(self).cell(row as int, j) == blank_cell_spec(bg),
            forall|j: int|
                0 <= j < old(self).cols && !(from <= j < to) ==> final(self).cell(row as int, j)
                    == old(self).cell(row as int, j),
            forall|i: int, j: int|
                0 <= i < old(self).rows() && 0 <= j < old(self).cols && i != row ==> final(self).cell(i, j) == old(self).cell(i, j),
            forall|i: int| 0 <= i < old(self).rows() ==> final(self).wrapped(i) == old(self).wrapped(i),
            forall|i: int|
                0 <= i < old(self).rows() && i != row ==> final(self).lines@[i] == old(
                    self,
                ).lines@[i],
            final(self).scrollback@ == old(self).scrollback@,
    {
        let mut j: usize = from;
        while j < to
            invariant
                old(self).wf(),
                from <= j <= to <= old(self).cols,
                row < old(self).rows(),
                self.wf(),
                self.rows() == old(self).rows(),
                self.cols == old(self).cols,
                self.max_scrollback == old(self).max_scrollback,
                forall|k: int| from <= k < j ==> self.cell(row as int, k) == blank_cell_spec(bg),
                forall|k: int|
                    0 <= k < old(self).cols && !(from <= k < j) ==> self.cell(row as int, k)
                        == old(self).cell(row as int, k),
                forall|i: int, k: int|
                    0 <= i < old(self).rows() && 0 <= k < old(self).cols && i != row
                        ==> self.cell(i, k) == old(self).cell(i, k),
                forall|i: int| 0 <= i < old(self).rows() ==> self.wrapped(i) == old(self).wrapped(i),
                forall|i: int|
                    0 <= i < old(self).rows() && i != row ==> self.lines@[i] == old(
                        self,
                    ).lines@[i],
                self.scrollback@ == old(self).scrollback@,
            decreases to - j,
        {
            let ghost prev = *self;
            self.lines[row].cells[j] = blank_cell(bg);
            proof {
                assert(self.lines@[row as int].cells@ == prev.lines@[row as int].cells@.update(
                    j as int,
                    blank_cell_spec(bg),
                ));
                assert forall|k: int| from <= k < j + 1 implies self.cell(row as int, k)
                    == blank_cell_spec(bg) by {
                    if k < j {
                        assert(prev.cell(row as int, k) == blank_cell_spec(bg));
                    }
                }
            }
            j = j + 1;
        }
    }

    /// Scrolls the region `[top, bottom]` up by one line. The top line of
    /// the region leaves, entering the scrollback when `capture` is set;
    /// the lines below it move up; a blank line appears at the bottom of
    /// the region. Rows outside the region do not move.
    fn scroll_up_one(&mut self, top: usize, bottom: usize, capture: bool, bg: Color)
        requires
            old(self).wf(),
            top <= bottom < old(self).rows(),
        ensures
            final(self).wf(),
            final(self).rows() == old(self).rows(),
            final(self).cols == old(self).cols,
            final(self).max_scrollback == old(self).max_scrollback,
            forall|i: int|
                0 <= i < old(self).rows() && !(top <= i <= bottom) ==> final(self).row_same(
                    *old(self),
                    i,
                ),
            forall|i: int|
                top <= i < bottom ==> (#[trigger] final(self).cell_row(i)) == old(self).cell_row(
                    i + 1,
                ) && final(self).wrapped(i) == old(self).wrapped(i + 1),
            final(self).row_blank(bottom as int, bg),
            final(self).history() == if capture {
                pushed_history(old(self).history(), old(self).cell_row(top as int), old(
                    self,
                ).max_scrollback as int)
            } else {
                old(self).history()
            },
    {
        let line = self.lines.remove(top);
        let ghost mid = *self;
        let ghost hist0 = old(self).history();
        if capture && self.max_scrollback > 0 {
            if self.scrollback.len() >= self.max_scrollback {
                self.scrollback.remove(0);
                proof {
                    assert(history_of(self.scrollback@) =~= hist0.drop_first());
                }
            }
            let ghost sb1 = self.scrollback@;
            self.scrollback.push(line);
            proof {
                assert(history_of(self.scrollback@) =~= history_of(sb1).push(line.cells@));
            }
        }
        let blank = blank_line(self.cols, bg);
        self.lines.insert(bottom, blank);
    }

    /// The cells of one visible row.
    pub open spec fn cell_row(self, i: int) -> Seq<Cell> {
        self.lines@[i].cells@
    }

    /// How far a request to scroll by `n` actually moves: at most the whole
    /// region.
    pub open spec fn scroll_amount(n: int, top: int, bottom: int) -> int {
        if n <= bottom + 1 - top {
            n
        } else {
            bottom + 1 - top
        }
    }

    /// Scrolls the region `[top, bottom]` up by `n` lines (clamped to the
    /// region height). The lines that leave at the top enter the scrollback
    /// oldest first when `capture` is set; blank lines appear at the bottom
    /// of the region; rows outside the region do not move.
    pub fn scroll_up(&mut self, top: usize, bottom: usize, n: usize, capture: bool, bg: Color)
        requires
            old(self).wf(),
            top <= bottom < old(self).rows(),
        ensures
            final(self).wf(),
            final(self).rows() == old(self).rows(),
            final(self).cols == old(self).cols,
            final(self).max_scrollback == old(self).max_scrollback,
            forall|i: int|
                0 <= i < old(self).rows() && !(top <= i <= bottom) ==> final(self).row_same(
                    *old(self),
                    i,
                ),
            forall|i: int|
                top <= i <= bottom - Grid::scroll_amount(n as int, top as int, bottom as int)
                    ==> (#[trigger] final(self).cell_row(i)) == old(self).cell_row(
                    i + Grid::scroll_amount(n as int, top as int, bottom as int),
                ) && final(self).wrapped(i) == old(self).wrapped(
                    i + Grid::scroll_amount(n as int, top as int, bottom as int),
                ),
            forall|i: int|
                bottom - Grid::scroll_amount(n as int, top as int, bottom as int) < i <= bottom
                    ==> final(self).row_blank(i, bg),
            final(self).history() == if capture {
                pushed_history_all(
                    old(self).history(),
                    Seq::new(
                        Grid::scroll_amount(n as int, top as int, bottom as int) as nat,
                        |k: int| old(self).cell_row(top + k),
                    ),
                    old(self).max_scrollback as int,
                )
            } else {
                old(self).history()
            },
    {
        let amount: usize = if n <= bottom - top { n } else { bottom - top + 1 };
        let ghost moved = Seq::new(
            Grid::scroll_amount(n as int, top as int, bottom as int) as nat,
            |k: int| old(self).cell_row(top + k),
        );
        let mut k: usize = 0;
        while k < amount
            invariant
                old(self).wf(),
                top <= bottom < old(self).rows(),
                k <= amount,
                amount == Grid::scroll_amount(n as int, top as int, bottom as int),
                moved == Seq::new(amount as nat, |x: int| old(self).cell_row(top + x)),
                self.wf(),
                self.rows() == old(self).rows(),
                self.cols == old(self).cols,
                self.max_scrollback == old(self).max_scrollback,
                forall|i: int|
                    0 <= i < old(self).rows() && !(top <= i <= bottom) ==> self.row_same(
                        *old(self),
                        i,
                    ),
                forall|i: int|
                    top <= i <= bottom - k ==> self.cell_row(i) == old(self).cell_row(i + k)
                        && self.wrapped(i) == old(self).wrapped(i + k),
                forall|i: int| bottom - k < i <= bottom ==> self.row_blank(i, bg),
                self.history() == if capture {
                    pushed_history_all(
                        old(self).history(),
                        moved.take(k as int),
                        old(self).max_scrollback as int,
                    )
                } else {
                    old(self).history()
                },
            decreases amount - k,
        {
            let ghost before = *self;
            self.scroll_up_one(top, bottom, capture, bg);
            proof {
                assert forall|i: int|
                    0 <= i < old(self).rows() && !(top <= i <= bottom) implies self.row_same(
                    *old(self),
                    i,
                ) by {
                    assert(self.row_same(before, i));
                    assert(before.row_same(*old(self), i));
                }
                assert forall|i: int| top <= i <= bottom - (k + 1) implies self.cell_row(i)
                    == old(self).cell_row(i + k + 1) && self.wrapped(i) == old(self).wrapped(
                    i + k + 1,
                ) by {
                    assert(self.cell_row(i) == before.cell_row(i + 1));
                    assert(before.cell_row(i + 1) == old(self).cell_row(i + 1 + k));
                }
                assert forall|i: int| bottom - (k + 1) < i <= bottom implies self.row_blank(
                    i,
                    bg,
                ) by {
                    if i < bottom {
                        assert(self.cell_row(i) == before.cell_row(i + 1));
                        assert(self.wrapped(i) == before.wrapped(i + 1));
                        assert(before.row_blank(i + 1, bg));
                    }
                }
                assert(before.cell_row(top as int) == moved[k as int]);
                if capture {
                    lemma_pushed_all_snoc(
                        old(self).history(),
                        moved.take(k as int),
                        moved[k as int],
                        old(self).max_scrollback as int,
                    );
                    assert(moved.take(k as int).push(moved[k as int]) =~= moved.take(k + 1));
                }
            }
            k = k + 1;
        }
        proof {
            assert(moved.take(amount as int) =~= moved);
        }
    }

    /// Scrolls the region `[top, bottom]` down by `n` lines (clamped to the
    /// region height): lines move down, the bottom lines of the region
    /// leave and are discarded, blank lines appear at the top of the
    /// region. The scrollback never changes.
    pub fn scroll_down(&mut self, top: usize, bottom: usize, n: usize, bg: Color)
        requires
            old(self).wf(),
            top <= bottom < old(self).rows(),
        ensures
            final(self).wf(),
            final(self).rows() == old(self).rows(),
            final(self).cols == old(self).cols,
            final(self).max_scrollback == old(self).max_scrollback,
            forall|i: int|
                0 <= i < old(self).rows() && !(top <= i <= bottom) ==> final(self).row_same(
                    *old(self),
                    i,
                ),
            forall|i: int|
                top + Grid::scroll_amount(n as int, top as int, bottom as int) <= i <= bottom
                    ==> (#[trigger] final(self).cell_row(i)) == old(self).cell_row(
                    i - Grid::scroll_amount(n as int, top as int, bottom as int),
                ) && final(self).wrapped(i) == old(self).wrapped(
                    i - Grid::scroll_amount(n as int, top as int, bottom as int),
                ),
            forall|i: int|
                top <= i < top + Grid::scroll_amount(n as int, top as int, bottom as int)
                    ==> final(self).row_blank(i, bg),
            final(self).history() == old(self).history(),
    {
        let amount: usize = if n <= bottom - top { n } else { bottom - top + 1 };
        let mut k: usize = 0;
        while k < amount
            invariant
                old(self).wf(),
                top <= bottom < old(self).rows(),
                k <= amount,
                amount == Grid::scroll_amount(n as int, top as int, bottom as int),
                self.wf(),
                self.rows() == old(self).rows(),
                self.cols == old(self).cols,
                self.max_scrollback == old(self).max_scrollback,
                forall|i: int|
                    0 <= i < old(self).rows() && !(top <= i <= bottom) ==> self.row_same(
                        *old(self),
                        i,
                    ),
                forall|i: int|
                    top + k <= i <= bottom ==> self.cell_row(i) == old(self).cell_row(i - k)
                        && self.wrapped(i) == old(self).wrapped(i - k),
                forall|i: int| top <= i < top + k ==> self.row_blank(i, bg),
                self.history() == old(self).history(),
            decreases amount - k,
        {
            let ghost before = *self;
            let _dropped = self.lines.remove(bottom);
            let ghost mid = self.lines@;
            let blank = blank_line(self.cols, bg);
            self.lines.insert(top, blank);
            proof {
                assert forall|i: int| 0 <= i < old(self).rows() implies (if i < top {
                    self.lines@[i] == before.lines@[i]
                } else if i == top {
                    line_blank(self.lines@[i], self.cols as int, bg)
                } else if i <= bottom {
                    self.lines@[i] == before.lines@[i - 1]
                } else {
                    self.lines@[i] == before.lines@[i]
                }) by {
                    if i < top {
                        assert(self.lines@[i] == mid[i]);
                        assert(mid[i] == before.lines@[i]);
                    } else if i > top {
                        assert(self.lines@[i] == mid[i - 1]);
                        if i - 1 < bottom {
                            assert(mid[i - 1] == before.lines@[i - 1]);
                        } else {
                            assert(mid[i - 1] == before.lines@[i]);
                        }
                    }
                }
                assert forall|i: int|
                    0 <= i < old(self).rows() && !(top <= i <= bottom) implies self.row_same(
                    *old(self),
                    i,
                ) by {
                    assert(self.lines@[i] == before.lines@[i]);
                    assert(before.row_same(*old(self), i));
                }
                assert forall|i: int| top + k + 1 <= i <= bottom implies self.cell_row(i) == old(
                    self,
                ).cell_row(i - k - 1) && self.wrapped(i) == old(self).wrapped(i - k - 1) by {
                    assert(self.lines@[i] == before.lines@[i - 1]);
                    assert(before.cell_row(i - 1) == old(self).cell_row(i - 1 - k));
                }
                assert forall|i: int| top <= i < top + k + 1 implies self.row_blank(i, bg) by {
                    if i > top {
                        assert(self.lines@[i] == before.lines@[i - 1]);
                        assert(before.row_blank(i - 1, bg));
                    }
                }
            }
            k = k + 1;
        }
    }

    /// Erases the full rows `[from, to)`: every cell becomes a blank
    /// carrying `bg` and the wrapped flags of those rows are cleared.
    pub fn erase_rows(&mut self, from: usize, to: usize, bg: Color)
        requires
            old(self).wf(),
            from <= to <= old(self).rows(),
        ensures
            final(self).wf(),
            final(self).rows() == old(self).rows(),
            final(self).cols == old(self).cols,
            final(self).max_scrollback == old(self).max_scrollback,
            forall|i: int| from <= i < to ==> final(self).row_blank(i, bg),
            forall|i: int|
                0 <= i < old(self).rows() && !(from <= i < to) ==> final(self).row_same(
                    *old(self),
                    i,
                ),
            final(self).scrollback@ == old(self).scrollback@,
    {
        let mut i: usize = from;
        while i < to
            invariant
                old(self).wf(),
                from <= i <= to <= old(self).rows(),
                self.wf(),
                self.rows() == old(self).rows(),
                self.cols == old(self).cols,
                self.max_scrollback == old(self).max_scrollback,
                forall|r: int| from <= r < i ==> self.row_blank(r, bg),
                forall|r: int|
                    0 <= r < old(self).rows() && !(from <= r < i) ==> self.row_same(
                        *old(self),
                        r,
                    ),
                self.scrollback@ == old(self).scrollback@,
            decreases to - i,
        {
            let ghost before = *self;
            let cols = self.cols;
            self.erase_row_range(i, 0, cols, bg);
            let ghost midg = *self;
            self.set_wrapped(i, false);
            proof {
                assert forall|j: int|
                    0 <= j < self.cols implies self.lines@[i as int].cells@[j]
                    == blank_cell_spec(bg) by {
                    assert(self.cell(i as int, j) == midg.cell(i as int, j));
                    assert(midg.cell(i as int, j) == blank_cell_spec(bg));
                }
                assert(self.lines@[i as int].cells@.len() == self.cols);
                assert(!self.lines@[i as int].wrapped);
                assert(self.row_blank(i as int, bg));
                assert forall|r: int| from <= r < i + 1 implies self.row_blank(r, bg) by {
                    if r < i {
                        assert(self.lines@[r] == midg.lines@[r]);
                        assert(midg.lines@[r] == before.lines@[r]);
                        assert(before.row_blank(r, bg));
                    }
                }
                assert forall|r: int|
                    0 <= r < old(self).rows() && !(from <= r < i + 1) implies self.row_same(
                    *old(self),
                    r,
                ) by {
                    assert(self.lines@[r] == midg.lines@[r]);
                    assert(midg.lines@[r] == before.lines@[r]);
                    assert(before.row_same(*old(self), r));
                }
            }
            i = i + 1;
        }
    }

    /// How many rows a resize pulls back out of the scrollback: only when
    /// growing, and no more than the history holds.
    pub open spec fn pulled_rows(self, new_rows: int) -> int {
        if new_rows > self.rows() {
            if new_rows - self.rows() <= self.history().len() {
                new_rows - self.rows()
            } else {
                self.history().len() as int
            }
        } else {
            0
        }
    }

    /// Resizes the grid in place. Every kept line is brought to the new
    /// width (cut on the right, or padded with blanks). When the grid
    /// grows, rows come back out of the scrollback first, newest above the
    /// old top row, and blank rows pad the bottom; when it shrinks, the
    /// bottom rows are dropped. Resizing to the very dimensions the grid
    /// already has changes nothing. Returns how many rows were pulled back
    /// from the scrollback, so the caller can keep the cursor on its line.
    #[verifier::rlimit(100)]
    #[verifier::spinoff_prover]
    pub fn resize(&mut self, new_rows: usize, new_cols: usize, bg: Color) -> (pulled: usize)
        requires
            old(self).wf(),
            1 <= new_rows <= 0xFFFF,
            1 <= new_cols <= 0xFFFF,
        ensures
            final(self).wf(),
            final(self).rows() == new_rows,
            final(self).cols == new_cols,
            final(self).max_scrollback == old(self).max_scrollback,
            pulled == old(self).pulled_rows(new_rows as int),
            forall|j: int|
                0 <= j < pulled ==> final(self).cell_row(j) == fit_row(
                    old(self).history()[old(self).history().len() - pulled + j],
                    new_cols as int,
                    bg,
                ),
            forall|r: int|
                pulled <= r < new_rows && r - pulled < old(self).rows() ==> final(self).cell_row(r)
                    == fit_row(old(self).cell_row(r - pulled), new_cols as int, bg)
                    && final(self).wrapped(r) == (old(self).wrapped(r - pulled)
                    && old(self).cols == new_cols),
            forall|i: int|
                pulled + old(self).rows() <= i < new_rows ==> final(self).row_blank(i, bg),
            final(self).history() == fit_rows(
                old(self).history().take(old(self).history().len() - pulled),
                new_cols as int,
                bg,
            ),
            new_rows == old(self).rows() && new_cols == old(self).cols ==> final(self).same_screen(
                *old(self),
            ) && final(self).history() == old(self).history(),
    {
        let ghost g0 = *old(self);
        let rows0 = self.lines.len();
        let grow_avail = if new_rows > rows0 {
            new_rows - rows0
        } else {
            0
        };
        let pulled: usize = if grow_avail < self.scrollback.len() {
            grow_avail
        } else {
            self.scrollback.len()
        };
        // Bring every visible line to the new width.
        let mut i: usize = 0;
        while i < self.lines.len()
            invariant
                g0.wf(),
                1 <= new_cols <= 0xFFFF,
                self.lines@.len() == g0.lines@.len(),
                i <= self.lines@.len(),
                self.cols == g0.cols,
                self.max_scrollback == g0.max_scrollback,
                self.scrollback@ == g0.scrollback@,
                forall|x: int|
                    0 <= x < i ==> (#[trigger] self.lines@[x]).cells@ == fit_row(
                        g0.cell_row(x),
                        new_cols as int,
                        bg,
                    ) && self.lines@[x].wrapped == (g0.wrapped(x) && g0.cols == new_cols),
                forall|x: int| i <= x < self.lines@.len() ==> self.lines@[x] == g0.lines@[x],
            decreases self.lines@.len() - i,
        {
            proof {
                assert(self.lines@[i as int] == g0.lines@[i as int]);
                assert(g0.lines@[i as int].cells@.len() == g0.cols);
            }
            let nl = fit_line(&self.lines[i], new_cols, bg);
            self.lines[i] = nl;
            i = i + 1;
        }
        // Bring every scrollback line to the new width.
        let mut s: usize = 0;
        while s < self.scrollback.len()
            invariant
                g0.wf(),
                1 <= new_cols <= 0xFFFF,
                s <= self.scrollback@.len(),
                self.scrollback@.len() == g0.scrollback@.len(),
                self.cols == g0.cols,
                self.max_scrollback == g0.max_scrollback,
                self.lines@.len() == g0.lines@.len(),
                forall|x: int|
                    0 <= x < self.lines@.len() ==> (#[trigger] self.lines@[x]).cells@ == fit_row(
                        g0.cell_row(x),
                        new_cols as int,
                        bg,
                    ) && self.lines@[x].wrapped == (g0.wrapped(x) && g0.cols == new_cols),
                forall|x: int|
                    0 <= x < s ==> (#[trigger] self.scrollback@[x]).cells@ == fit_row(
                        g0.history()[x],
                        new_cols as int,
                        bg,
                    ),
                forall|x: int|
                    s <= x < self.scrollback@.len() ==> self.scrollback@[x] == g0.scrollback@[x],
            decreases self.scrollback@.len() - s,
        {
            proof {
                assert(self.scrollback@[s as int] == g0.scrollback@[s as int]);
                assert(g0.scrollback@[s as int].cells@.len() == g0.cols);
                assert(g0.history()[s as int] == g0.scrollback@[s as int].cells@);
            }
            let nl = fit_line(&self.scrollback[s], new_cols, bg);
            self.scrollback[s] = nl;
            s = s + 1;
        }
        self.cols = new_cols;
        // Pull rows back out of the scrollback, newest right above the top.
        let ghost sb_len = g0.history().len() as int;
        let mut t: usize = 0;
        while t < pulled
            invariant
                g0.wf(),
                1 <= new_cols <= 0xFFFF,
                t <= pulled,
                pulled <= sb_len,
                sb_len == g0.history().len(),
                self.cols == new_cols,
                self.max_scrollback == g0.max_scrollback,
                self.scrollback@.len() == sb_len - t,
                self.lines@.len() == g0.lines@.len() + t,
                forall|x: int|
                    0 <= x < t ==> (#[trigger] self.lines@[x]).cells@ == fit_row(
                        g0.history()[sb_len - t + x],
                        new_cols as int,
                        bg,
                    ),
                forall|x: int|
                    0 <= x < g0.lines@.len() ==> (#[trigger] self.lines@[t + x]).cells@
                        == fit_row(g0.cell_row(x), new_cols as int, bg) && self.lines@[t
                        + x].wrapped == (g0.wrapped(x) && g0.cols == new_cols),
                forall|x: int|
                    0 <= x < sb_len - t ==> (#[trigger] self.scrollback@[x]).cells@ == fit_row(
                        g0.history()[x],
                        new_cols as int,
                        bg,
                    ),
            decreases pulled - t,
        {
            let ghost lines_before = self.lines@;
            let l = self.scrollback.pop().unwrap();
            self.lines.insert(0, l);
            proof {
                assert forall|x: int| 0 <= x < g0.lines@.len() implies (#[trigger] self.lines@[t
                    + 1 + x]).cells@ == fit_row(g0.cell_row(x), new_cols as int, bg)
                    && self.lines@[t + 1 + x].wrapped == (g0.wrapped(x) && g0.cols
                    == new_cols) by {
                    assert(self.lines@[t + 1 + x] == lines_before[t + x]);
                }
                assert forall|x: int| 0 <= x < t + 1 implies (#[trigger] self.lines@[x]).cells@
                    == fit_row(g0.history()[sb_len - (t + 1) + x], new_cols as int, bg) by {
                    if x > 0 {
                        assert(self.lines@[x] == lines_before[x - 1]);
                    }
                }
            }
            t = t + 1;
        }
        // Now cut or pad the bottom to reach the new height.
        let ghost lines_full = self.lines@;
        proof {
            assert forall|x: int| 0 <= x < lines_full.len() implies ((#[trigger] lines_full[x]).cells@
                == if x < pulled {
                fit_row(g0.history()[sb_len - pulled + x], new_cols as int, bg)
            } else {
                fit_row(g0.cell_row(x - pulled), new_cols as int, bg)
            }) && (x >= pulled ==> lines_full[x].wrapped == (g0.wrapped(x - pulled) && g0.cols
                == new_cols)) by {
                if x < pulled {
                    assert(self.lines@[x].cells@ == fit_row(
                        g0.history()[sb_len - t + x],
                        new_cols as int,
                        bg,
                    ));
                } else {
                    assert(self.lines@[t + (x - pulled)].cells@ == fit_row(
                        g0.cell_row(x - pulled),
                        new_cols as int,
                        bg,
                    ) && self.lines@[t + (x - pulled)].wrapped == (g0.wrapped(x - pulled)
                        && g0.cols == new_cols));
                    assert(t + (x - pulled) == x);
                }
            }
        }
        if self.lines.len() > new_rows {
            self.lines.truncate(new_rows);
        }
        let ghost lines_mid = self.lines@;
        while self.lines.len() < new_rows
            invariant
                1 <= new_cols <= 0xFFFF,
                self.lines@.len() <= new_rows,
                lines_mid.len() <= self.lines@.len(),
                self.cols == new_cols,
                self.max_scrollback == g0.max_scrollback,
                self.scrollback@.len() == sb_len - pulled,
                forall|x: int|
                    0 <= x < sb_len - pulled ==> (#[trigger] self.scrollback@[x]).cells@
                        == fit_row(g0.history()[x], new_cols as int, bg),
                forall|x: int| 0 <= x < lines_mid.len() ==> self.lines@[x] == lines_mid[x],
                forall|x: int|
                    lines_mid.len() <= x < self.lines@.len() ==> line_blank(
                        #[trigger] self.lines@[x],
                        new_cols as int,
                        bg,
                    ),
            decreases new_rows - self.lines@.len(),
        {
            let bl = blank_line(new_cols, bg);
            self.lines.push(bl);
        }
        proof {
            assert forall|x: int| 0 <= x < lines_mid.len() implies lines_mid[x]
                == lines_full[x] by {}
            assert forall|j: int| 0 <= j < pulled implies self.cell_row(j) == fit_row(
                g0.history()[sb_len - pulled + j],
                new_cols as int,
                bg,
            ) by {
                assert(self.lines@[j] == lines_mid[j]);
                assert(lines_mid[j] == lines_full[j]);
                assert(lines_full[j].cells@ == fit_row(
                    g0.history()[sb_len - pulled + j],
                    new_cols as int,
                    bg,
                ));
            }
            assert forall|r: int|
                pulled <= r < new_rows && r - pulled < old(self).rows() implies self.cell_row(r)
                == fit_row(old(self).cell_row(r - pulled), new_cols as int, bg) && self.wrapped(r)
                == (old(self).wrapped(r - pulled) && old(self).cols == new_cols) by {
                assert(self.lines@[r] == lines_mid[r]);
                assert(lines_mid[r] == lines_full[r]);
                assert(lines_full[r].cells@ == fit_row(
                    g0.cell_row(r - pulled),
                    new_cols as int,
                    bg,
                ));
            }
            assert forall|x: int| 0 <= x < self.lines@.len() implies (
            #[trigger] self.lines@[x]).cells@.len() == new_cols by {
                if x < lines_mid.len() {
                    assert(self.lines@[x] == lines_mid[x]);
                    assert(lines_mid[x] == lines_full[x]);
                    if x < pulled {
                        lemma_fit_row_len(
                            g0.history()[sb_len - pulled + x],
                            new_cols as int,
                            bg,
                        );
                    } else {
                        lemma_fit_row_len(g0.cell_row(x - pulled), new_cols as int, bg);
                    }
                }
            }
            assert forall|x: int| 0 <= x < self.scrollback@.len() implies (
            #[trigger] self.scrollback@[x]).cells@.len() == new_cols by {
                lemma_fit_row_len(g0.history()[x], new_cols as int, bg);
            }
            assert(self.history() =~= fit_rows(
                g0.history().take(sb_len - pulled),
                new_cols as int,
                bg,
            ));
            if new_rows == g0.rows() && new_cols == g0.cols {
                assert forall|x: int| 0 <= x < new_rows implies self.row_same(g0, x) by {
                    assert(self.lines@[x] == lines_mid[x]);
                    assert(lines_mid[x] == lines_full[x]);
                    assert(lines_full[x].cells@ == fit_row(g0.cell_row(x), new_cols as int, bg));
                    assert(fit_row(g0.cell_row(x), new_cols as int, bg) =~= g0.cell_row(x));
                }
                assert(g0.history().take(sb_len - pulled) =~= g0.history());
                assert forall|x: int| 0 <= x < sb_len implies self.history()[x]
                    == g0.history()[x] by {
                    assert(fit_row(g0.history()[x], new_cols as int, bg) =~= g0.history()[x]);
                }
                assert(self.history() =~= g0.history());
            }
        }
        pulled
    }
}

} // verus!
