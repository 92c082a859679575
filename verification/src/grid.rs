use vstd::prelude::*;

use std::collections::VecDeque;

use crate::cell::{default_cell, Cell, CellFlags, Point};

verus! {

/// The cursor: its position on the screen, the cell that new input copies its
/// attributes from, and whether the next character first wraps to a new line.
#[derive(Clone, Copy, Debug, PartialEq, Eq, Structural)]
pub struct CursorState {
    pub point: Point,
    pub template: Cell,
    pub pending_wrap: bool,
}

/// The cursor at the top left corner, with the blank cell as template.
pub open spec fn default_cursor() -> CursorState {
    CursorState { point: Point { row: 0, col: 0 }, template: default_cell(), pending_wrap: false }
}

impl Default for CursorState {
    fn default() -> (r: CursorState)
        ensures
            r == default_cursor(),
    {
        CursorState { point: Point { row: 0, col: 0 }, template: Cell::blank(), pending_wrap: false }
    }
}

/// `n` blank cells.
pub open spec fn blank_line(n: nat) -> Seq<Cell> {
    Seq::new(n, |i: int| default_cell())
}

/// `k` lines of `n` blank cells each.
pub open spec fn blank_lines(k: nat, n: nat) -> Seq<Seq<Cell>> {
    Seq::new(k, |i: int| blank_line(n))
}

/// A line cut or padded with blank cells to `n` cells.
pub open spec fn resize_line(line: Seq<Cell>, n: nat) -> Seq<Cell> {
    if n <= line.len() {
        line.subrange(0, n as int)
    } else {
        line + blank_line((n - line.len()) as nat)
    }
}

/// The cell that erasing leaves: blank, on the background of `template`.
pub open spec fn erased_cell(template: Cell) -> Cell {
    Cell { bg: template.bg, ..default_cell() }
}

pub open spec fn min(a: int, b: int) -> int {
    if a <= b {
        a
    } else {
        b
    }
}

pub open spec fn max(a: int, b: int) -> int {
    if a <= b {
        b
    } else {
        a
    }
}

/// The smallest multiple of 8 that is at least `n`.
pub open spec fn round_up8(n: int) -> int {
    if n % 8 == 0 {
        n
    } else {
        n + (8 - n % 8)
    }
}

/// One line of the buffer.
#[derive(Clone, Debug)]
pub struct Row {
    inner: Vec<Cell>,
}

impl View for Row {
    type V = Seq<Cell>;

    closed spec fn view(&self) -> Seq<Cell> {
        self.inner@
    }
}

impl Row {
    /// A line of `cols` blank cells.
    pub fn new(cols: usize) -> (r: Row)
        ensures
            r@ == blank_line(cols as nat),
    {
        let mut inner: Vec<Cell> = Vec::new();
        let mut i: usize = 0;
        while i < cols
            invariant
                i <= cols,
                inner@ =~= blank_line(i as nat),
            decreases cols - i,
        {
            inner.push(Cell::blank());
            i = i + 1;
        }
        Row { inner }
    }

    /// Sets the cells `lo..hi` to `cell`.
    fn fill_range(&mut self, lo: usize, hi: usize, cell: Cell)
        requires
            lo <= hi <= old(self)@.len(),
        ensures
            final(self)@ == Seq::new(
                old(self)@.len(),
                |c: int| if lo <= c < hi { cell } else { old(self)@[c] },
            ),
    {
        let mut i: usize = lo;
        while i < hi
            invariant
                lo <= i <= hi,
                hi <= self.inner@.len(),
                self.inner@.len() == old(self)@.len(),
                forall|c: int|
                    0 <= c < self.inner@.len() ==> #[trigger] self.inner@[c] == (if lo <= c < i {
                        cell
                    } else {
                        old(self)@[c]
                    }),
            decreases hi - i,
        {
            self.inner.set(i, cell);
            i = i + 1;
        }
        assert(self@ =~= Seq::new(
            old(self)@.len(),
            |c: int| if lo <= c < hi { cell } else { old(self)@[c] },
        ));
    }

    /// Sets cell `c` to `cell`.
    fn set_cell(&mut self, c: usize, cell: Cell)
        requires
            c < old(self)@.len(),
        ensures
            final(self)@ == old(self)@.update(c as int, cell),
    {
        self.inner.set(c, cell);
    }

    /// Cuts or pads the line to `n` cells.
    fn resize(&mut self, n: usize)
        ensures
            final(self)@ == resize_line(old(self)@, n as nat),
    {
        if n <= self.inner.len() {
            self.inner.truncate(n);
        } else {
            let k = n - self.inner.len();
            let mut i: usize = 0;
            while i < k
                invariant
                    i <= k,
                    k == n - old(self)@.len(),
                    self.inner@ =~= old(self)@ + blank_line(i as nat),
                decreases k - i,
            {
                self.inner.push(Cell::blank());
                i = i + 1;
            }
        }
    }
}

/// Mutable access to one line of the buffer: `IndexMut::index_mut` of std's `VecDeque`.
/// The returned reference is the line at `i`, and what it holds at the end is what the
/// buffer holds there afterwards.
#[verifier::external_body]
fn deque_row_mut(buffer: &mut VecDeque<Row>, i: usize) -> (r: &mut Row)
    requires
        i < old(buffer)@.len(),
    ensures
        *r == old(buffer)@[i as int],
        final(buffer)@ == old(buffer)@.update(i as int, *final(r)),
{
    &mut buffer[i]
}

/// What a grid holds: all lines (scrollback first, the screen last), the screen
/// size, the scrollback limit, how far the view is scrolled back, and the cursors.
pub struct GridView {
    pub lines: Seq<Seq<Cell>>,
    pub rows: nat,
    pub cols: nat,
    pub max_scrollback: nat,
    pub viewport_offset: nat,
    pub cursor: CursorState,
    pub saved_cursor: CursorState,
}

impl GridView {
    /// Where the screen begins in the buffer; also the number of scrollback lines.
    pub open spec fn screen_start(self) -> int {
        self.lines.len() - self.rows
    }

    /// Line `r` of the screen.
    pub open spec fn screen_line(self, r: int) -> Seq<Cell> {
        self.lines[self.screen_start() + r]
    }

    /// The cell under the cursor.
    pub open spec fn cursor_cell(self) -> Cell {
        self.screen_line(self.cursor.point.row as int)[self.cursor.point.col as int]
    }

    /// The state that every grid keeps: a screen of at least one line and one column
    /// within the size limits, every screen line as wide as the screen, and the cursor
    /// on the screen.
    pub open spec fn wf(self) -> bool {
        &&& 1 <= self.rows <= Grid::MAX_ROWS
        &&& 1 <= self.cols <= Grid::MAX_COLS
        &&& self.rows + self.max_scrollback <= usize::MAX
        &&& self.rows <= self.lines.len() <= usize::MAX
        &&& self.viewport_offset <= usize::MAX
        &&& forall|r: int| 0 <= r < self.rows ==> (#[trigger] self.screen_line(r)).len() == self.cols
        &&& self.cursor.point.row < self.rows
        &&& self.cursor.point.col < self.cols
    }

    /// The cursor moved to `(row, col)`, clamped to the screen, with no pending wrap.
    pub open spec fn moved(self, row: int, col: int) -> GridView {
        GridView {
            cursor: CursorState {
                point: Point {
                    row: min(row, self.rows - 1) as usize,
                    col: min(col, self.cols - 1) as usize,
                },
                pending_wrap: false,
                ..self.cursor
            },
            ..self
        }
    }

    /// The cursor moved `n` lines up, stopping at the top line.
    pub open spec fn cursor_up(self, n: nat) -> GridView {
        self.moved(max(self.cursor.point.row - n, 0), self.cursor.point.col as int)
    }

    /// The cursor moved `n` lines down, stopping at the bottom line.
    pub open spec fn cursor_down(self, n: nat) -> GridView {
        self.moved(self.cursor.point.row + n, self.cursor.point.col as int)
    }

    /// The cursor moved `n` columns right, stopping at the last column.
    pub open spec fn cursor_right(self, n: nat) -> GridView {
        self.moved(self.cursor.point.row as int, self.cursor.point.col + n)
    }

    /// The cursor moved `n` columns left, stopping at the first column.
    pub open spec fn cursor_left(self, n: nat) -> GridView {
        self.moved(self.cursor.point.row as int, max(self.cursor.point.col - n, 0))
    }

    /// The cursor at the first column of its line.
    pub open spec fn carriage_return(self) -> GridView {
        self.moved(self.cursor.point.row as int, 0)
    }

    /// A blank line added below the buffer, and the oldest lines dropped while the
    /// scrollback is over its limit.
    pub open spec fn add_row(self) -> GridView {
        let pushed = self.lines.push(blank_line(self.cols));
        let keep = min(pushed.len() as int, (self.rows + self.max_scrollback) as int);
        GridView { lines: pushed.subrange(pushed.len() - keep, pushed.len() as int), ..self }
    }

    /// `k` blank lines added below the buffer, and the oldest lines dropped while
    /// the scrollback is over its limit.
    pub open spec fn add_rows(self, k: nat) -> GridView {
        let pushed = self.lines + blank_lines(k, self.cols);
        let keep = min(pushed.len() as int, (self.rows + self.max_scrollback) as int);
        GridView { lines: pushed.subrange(pushed.len() - keep, pushed.len() as int), ..self }
    }

    /// Line feed: the cursor one line down, or a new line scrolled in when it is on
    /// the bottom line.
    pub open spec fn linefeed(self) -> GridView {
        if self.cursor.point.row == self.rows - 1 {
            self.add_row().moved(self.cursor.point.row as int, self.cursor.point.col as int)
        } else {
            self.moved(self.cursor.point.row + 1, self.cursor.point.col as int)
        }
    }

    /// Every screen cell at `(r, c)` with `pred(r, c)` set to `cell`.
    pub open spec fn fill_screen(self, pred: spec_fn(int, int) -> bool, cell: Cell) -> GridView {
        let start = self.screen_start();
        GridView {
            lines: Seq::new(
                self.lines.len(),
                |i: int|
                    if i < start {
                        self.lines[i]
                    } else {
                        Seq::new(
                            self.lines[i].len(),
                            |c: int|
                                if pred(i - start, c) {
                                    cell
                                } else {
                                    self.lines[i][c]
                                },
                        )
                    },
            ),
            ..self
        }
    }

    /// Screen cell `(r, c)` set to `cell`.
    pub open spec fn set_screen_cell(self, r: int, c: int, cell: Cell) -> GridView {
        let i = self.screen_start() + r;
        GridView { lines: self.lines.update(i, self.lines[i].update(c, cell)), ..self }
    }

    /// The cell under the cursor set to `cell`.
    pub open spec fn set_cursor_cell(self, cell: Cell) -> GridView {
        self.set_screen_cell(self.cursor.point.row as int, self.cursor.point.col as int, cell)
    }

    /// Erase in display: mode 0 erases from the cursor to the end of the screen,
    /// mode 1 from the start of the screen to the cursor, mode 2 the whole screen;
    /// other modes change nothing. Erased cells are blank on the template's background.
    pub open spec fn erase_display(self, mode: nat) -> GridView {
        let row = self.cursor.point.row as int;
        let col = self.cursor.point.col as int;
        let cell = erased_cell(self.cursor.template);
        if mode == 0 {
            self.fill_screen(|r: int, c: int| (r == row && c >= col) || r > row, cell)
        } else if mode == 1 {
            self.fill_screen(|r: int, c: int| (r == row && c <= col) || r < row, cell)
        } else if mode == 2 {
            self.fill_screen(|r: int, c: int| true, cell)
        } else {
            self
        }
    }

    /// Erase in line: mode 0 erases from the cursor to the end of its line, mode 1
    /// from the start of the line to the cursor, mode 2 the whole line; other modes
    /// change nothing.
    pub open spec fn erase_row(self, mode: nat) -> GridView {
        let row = self.cursor.point.row as int;
        let col = self.cursor.point.col as int;
        let cell = erased_cell(self.cursor.template);
        if mode == 0 {
            self.fill_screen(|r: int, c: int| r == row && c >= col, cell)
        } else if mode == 1 {
            self.fill_screen(|r: int, c: int| r == row && c <= col, cell)
        } else if mode == 2 {
            self.fill_screen(|r: int, c: int| r == row, cell)
        } else {
            self
        }
    }

    /// Erase characters: `n` cells from the cursor on, within its line.
    pub open spec fn erase_chars(self, n: nat) -> GridView {
        let row = self.cursor.point.row as int;
        let col = self.cursor.point.col as int;
        self.fill_screen(|r: int, c: int| r == row && col <= c < col + n, erased_cell(self.cursor.template))
    }

    /// The cursor saved.
    pub open spec fn save_cursor(self) -> GridView {
        GridView { saved_cursor: self.cursor, ..self }
    }

    /// The saved cursor brought back, clamped to the screen.
    pub open spec fn restore_cursor(self) -> GridView {
        GridView {
            cursor: CursorState {
                point: Point {
                    row: min(self.saved_cursor.point.row as int, self.rows - 1) as usize,
                    col: min(self.saved_cursor.point.col as int, self.cols - 1) as usize,
                },
                ..self.saved_cursor
            },
            ..self
        }
    }

    /// The buffer index of line `row` of the view.
    pub open spec fn viewport_to_buffer(self, row: int) -> int {
        self.screen_start() - self.viewport_offset + row
    }

    /// The line of the view that shows buffer line `index`.
    pub open spec fn buffer_to_viewport(self, index: int) -> int {
        index + self.viewport_offset + self.rows - self.lines.len()
    }

    /// Every screen cell blank.
    pub open spec fn clear(self) -> GridView {
        self.fill_screen(|r: int, c: int| true, default_cell())
    }

    /// When the cell under the cursor is half of a wide character, the other half made
    /// a plain space (keeping its colours).
    pub open spec fn clear_wide(self) -> GridView {
        let row = self.cursor.point.row as int;
        let col = self.cursor.point.col as int;
        let f = self.cursor_cell().flags.bits;
        let g1 = if f & CellFlags::WIDE_CHAR == CellFlags::WIDE_CHAR && col + 1 < self.cols {
            let old = self.screen_line(row)[col + 1];
            self.set_screen_cell(row, col + 1, Cell { c: ' ', flags: CellFlags { bits: 0 }, ..old })
        } else {
            self
        };
        if f & CellFlags::WIDE_CHAR_SPACER == CellFlags::WIDE_CHAR_SPACER && col > 0 {
            let old = g1.screen_line(row)[col - 1];
            g1.set_screen_cell(row, col - 1, Cell { c: ' ', flags: CellFlags { bits: 0 }, ..old })
        } else {
            g1
        }
    }

    /// Writing character `c` of display width `width` at the cursor. The view goes to
    /// the bottom; a character of width 0 writes nothing. A pending wrap first marks
    /// the cell under the cursor as wrapped and moves to the start of the next line.
    /// A wide character that does not fit on the line moves to the next one (leaving a
    /// space behind), takes two cells (the second marked as its right half), and any
    /// wide character it cuts in half is cleared. After writing, the cursor moves one
    /// column right, or, on the last column, a wrap becomes pending.
    pub open spec fn write_char(self, c: char, width: nat) -> GridView {
        let g0 = GridView { viewport_offset: 0, ..self };
        let t = self.cursor.template;
        if width == 0 {
            g0
        } else {
            let g1 = if self.cursor.pending_wrap {
                let cc = g0.cursor_cell();
                g0.set_cursor_cell(
                    Cell { flags: CellFlags { bits: cc.flags.bits | CellFlags::WRAPLINE }, ..cc },
                ).linefeed().carriage_return()
            } else {
                g0
            };
            let g2 = if width == 2 {
                let g1a = if g1.cols - 1 <= g1.cursor.point.col {
                    g1.set_cursor_cell(Cell { c: ' ', ..t }).linefeed().carriage_return()
                } else {
                    g1
                };
                g1a.clear_wide().set_cursor_cell(
                    Cell { c: c, flags: CellFlags { bits: t.flags.bits | CellFlags::WIDE_CHAR }, ..t },
                ).cursor_right(1).set_cursor_cell(
                    Cell { c: ' ', flags: CellFlags { bits: t.flags.bits | CellFlags::WIDE_CHAR_SPACER }, ..t },
                )
            } else {
                g1.clear_wide().set_cursor_cell(Cell { c: c, ..t })
            };
            if g2.cursor.point.col == g2.cols - 1 {
                GridView { cursor: CursorState { pending_wrap: true, ..g2.cursor }, ..g2 }
            } else {
                GridView {
                    cursor: CursorState {
                        point: Point { row: g2.cursor.point.row, col: (g2.cursor.point.col + 1) as usize },
                        ..g2.cursor
                    },
                    ..g2
                }
            }
        }
    }

    /// Reverse index: the cursor one line up, or, on the top line, the bottom screen
    /// line dropped and a blank line inserted at the top of the screen.
    pub open spec fn reverse_index(self) -> GridView {
        if self.cursor.point.row > 0 {
            self.moved(self.cursor.point.row - 1, self.cursor.point.col as int)
        } else {
            GridView {
                lines: self.lines.drop_last().insert(self.screen_start(), blank_line(self.cols)),
                cursor: CursorState { pending_wrap: false, ..self.cursor },
                ..self
            }
        }
    }

    /// How many lines inserting or deleting `n` lines at the cursor affects: at most
    /// the lines from the cursor to the bottom of the screen.
    pub open spec fn lines_below(self, n: nat) -> int {
        min(n as int, self.rows - self.cursor.point.row)
    }

    /// Insert lines: blank lines inserted at the cursor line, the lines pushed off the
    /// bottom of the screen dropped.
    pub open spec fn insert_lines(self, n: nat) -> GridView {
        let k = self.lines_below(n);
        let ci = self.screen_start() + self.cursor.point.row;
        GridView {
            lines: self.lines.subrange(0, ci) + blank_lines(k as nat, self.cols) + self.lines.subrange(
                ci,
                self.lines.len() - k,
            ),
            cursor: CursorState { pending_wrap: false, ..self.cursor },
            ..self
        }
    }

    /// Delete lines: lines removed at the cursor line, blank lines added at the bottom
    /// of the screen.
    pub open spec fn delete_lines(self, n: nat) -> GridView {
        let k = self.lines_below(n);
        let ci = self.screen_start() + self.cursor.point.row;
        GridView {
            lines: self.lines.subrange(0, ci) + self.lines.subrange(ci + k, self.lines.len() as int)
                + blank_lines(k as nat, self.cols),
            cursor: CursorState { pending_wrap: false, ..self.cursor },
            ..self
        }
    }

    /// The view scrolled back by `lines` more lines (forward when negative), kept
    /// between the bottom and the oldest scrollback line.
    pub open spec fn scroll(self, lines: int) -> GridView {
        GridView {
            viewport_offset: min(max(self.viewport_offset + lines, 0), self.screen_start()) as nat,
            ..self
        }
    }

    /// The screen height changed to `r` lines: blank lines added at the bottom when it
    /// grows; when it shrinks, lines below the cursor dropped first and the rest of
    /// the top lines left in the scrollback.
    pub open spec fn resize_rows(self, r: nat) -> GridView {
        if r == self.rows {
            self
        } else if self.rows < r {
            GridView { rows: r, ..self }.add_rows((r - self.rows) as nat)
        } else {
            let d = min(self.rows - r, self.rows - self.cursor.point.row - 1);
            GridView { rows: r, lines: self.lines.subrange(0, self.lines.len() - d), ..self }
        }
    }

    /// The screen width changed to `c` columns: every screen line cut or padded.
    pub open spec fn resize_cols(self, c: nat) -> GridView {
        if c == self.cols {
            self
        } else {
            GridView {
                cols: c,
                lines: Seq::new(
                    self.lines.len(),
                    |i: int|
                        if i >= self.screen_start() {
                            resize_line(self.lines[i], c)
                        } else {
                            self.lines[i]
                        },
                ),
                ..self
            }
        }
    }

    /// The screen resized to at least one line and one column, the cursor clamped to
    /// it, with no pending wrap.
    pub open spec fn resize(self, rows: nat, cols: nat) -> GridView {
        let g = self.resize_rows(max(rows as int, 1) as nat).resize_cols(max(cols as int, 1) as nat);
        g.moved(g.cursor.point.row as int, g.cursor.point.col as int)
    }
}

/// A grid with the same lines and size as a well-formed one, and its cursor on the
/// screen, is well-formed.
pub proof fn lemma_wf_same_lines(a: GridView, b: GridView)
    requires
        a.wf(),
        b.lines == a.lines,
        b.rows == a.rows,
        b.cols == a.cols,
        b.max_scrollback == a.max_scrollback,
        b.viewport_offset <= usize::MAX,
        b.cursor.point.row < b.rows,
        b.cursor.point.col < b.cols,
    ensures
        b.wf(),
{
    assert forall|r: int| 0 <= r < b.rows implies (#[trigger] b.screen_line(r)).len() == b.cols by {
        assert(b.screen_line(r) == a.screen_line(r));
    }
}

/// Filling with one predicate and then another fills where either holds.
proof fn lemma_fill_union(
    g: GridView,
    p1: spec_fn(int, int) -> bool,
    p2: spec_fn(int, int) -> bool,
    p3: spec_fn(int, int) -> bool,
    cell: Cell,
)
    requires
        g.wf(),
        forall|r: int, c: int| 0 <= r < g.rows && 0 <= c < g.cols ==> #[trigger] p3(r, c) == (p1(r, c) || p2(r, c)),
    ensures
        g.fill_screen(p1, cell).fill_screen(p2, cell) == g.fill_screen(p3, cell),
{
    let a = g.fill_screen(p1, cell).fill_screen(p2, cell);
    let b = g.fill_screen(p3, cell);
    assert forall|i: int| 0 <= i < a.lines.len() implies a.lines[i] =~= b.lines[i] by {
        if i >= g.screen_start() {
            assert(g.screen_line(i - g.screen_start()).len() == g.cols);
        }
    }
    assert(a.lines =~= b.lines);
}

/// Predicates that agree on the screen fill alike.
proof fn lemma_fill_ext(g: GridView, p1: spec_fn(int, int) -> bool, p2: spec_fn(int, int) -> bool, cell: Cell)
    requires
        g.wf(),
        forall|r: int, c: int| 0 <= r < g.rows && 0 <= c < g.cols ==> #[trigger] p1(r, c) == p2(r, c),
    ensures
        g.fill_screen(p1, cell) == g.fill_screen(p2, cell),
{
    let a = g.fill_screen(p1, cell);
    let b = g.fill_screen(p2, cell);
    assert forall|i: int| 0 <= i < a.lines.len() implies a.lines[i] =~= b.lines[i] by {
        if i >= g.screen_start() {
            assert(g.screen_line(i - g.screen_start()).len() == g.cols);
        }
    }
    assert(a.lines =~= b.lines);
}

/// Filling keeps a grid well-formed.
proof fn lemma_fill_wf(g: GridView, p: spec_fn(int, int) -> bool, cell: Cell)
    requires
        g.wf(),
    ensures
        g.fill_screen(p, cell).wf(),
{
    let a = g.fill_screen(p, cell);
    assert forall|r: int| 0 <= r < a.rows implies (#[trigger] a.screen_line(r)).len() == a.cols by {
        assert(g.screen_line(r).len() == g.cols);
    }
}

/// The lines that a buffer of rows holds.
pub open spec fn lines_of(b: Seq<Row>) -> Seq<Seq<Cell>> {
    Seq::new(b.len(), |i: int| b[i]@)
}

proof fn lemma_lines_of_ops(b: Seq<Row>, x: Row, i: int)
    ensures
        lines_of(b.push(x)) == lines_of(b).push(x@),
        b.len() > 0 ==> lines_of(b.subrange(1, b.len() as int)) == lines_of(b).subrange(1, b.len() as int),
        b.len() > 0 ==> lines_of(b.subrange(0, b.len() - 1)) == lines_of(b).subrange(0, b.len() - 1),
        0 <= i <= b.len() ==> lines_of(b.insert(i, x)) == lines_of(b).insert(i, x@),
        0 <= i < b.len() ==> lines_of(b.remove(i)) == lines_of(b).remove(i),
        0 <= i < b.len() ==> lines_of(b.update(i, x)) == lines_of(b).update(i, x@),
{
    assert(lines_of(b.push(x)) =~= lines_of(b).push(x@));
    if b.len() > 0 {
        assert(lines_of(b.subrange(1, b.len() as int)) =~= lines_of(b).subrange(1, b.len() as int));
        assert(lines_of(b.subrange(0, b.len() - 1)) =~= lines_of(b).subrange(0, b.len() - 1));
    }
    if 0 <= i <= b.len() {
        assert(lines_of(b.insert(i, x)) =~= lines_of(b).insert(i, x@));
    }
    if 0 <= i < b.len() {
        assert(lines_of(b.remove(i)) =~= lines_of(b).remove(i));
        assert(lines_of(b.update(i, x)) =~= lines_of(b).update(i, x@));
    }
}

/// Adding one more blank line to `k` added lines is adding `k + 1`.
proof fn lemma_add_rows_step(g: GridView, k: nat)
    requires
        g.rows + g.max_scrollback >= 1,
    ensures
        g.add_rows(k).add_row() == g.add_rows(k + 1),
        g.add_rows(0).lines == (if g.lines.len() <= g.rows + g.max_scrollback {
            g.lines
        } else {
            g.lines.subrange(g.lines.len() - (g.rows + g.max_scrollback), g.lines.len() as int)
        }),
{
    let bound = g.rows + g.max_scrollback;
    let a = g.add_rows(k);
    let b = g.add_rows(k + 1);
    let pa = g.lines + blank_lines(k, g.cols);
    let pb = g.lines + blank_lines(k + 1, g.cols);
    assert(pb =~= pa.push(blank_line(g.cols)));
    let c = a.add_row();
    assert(c.lines =~= b.lines);
    assert(g.lines + blank_lines(0, g.cols) =~= g.lines);
}

/// Adding blank lines keeps a screen whose lines are as wide as the screen.
proof fn lemma_add_rows_wf(g: GridView, k: nat)
    requires
        1 <= g.rows <= Grid::MAX_ROWS,
        1 <= g.cols <= Grid::MAX_COLS,
        g.rows + g.max_scrollback <= usize::MAX,
        g.rows <= g.lines.len() + k,
        forall|i: int| g.lines.len() + k - g.rows <= i < g.lines.len() ==> (#[trigger] g.lines[i]).len() == g.cols,
        g.viewport_offset <= usize::MAX,
        g.cursor.point.row < g.rows,
        g.cursor.point.col < g.cols,
    ensures
        g.add_rows(k).wf(),
        g.add_rows(k).lines.len() == min((g.lines.len() + k) as int, (g.rows + g.max_scrollback) as int),
{
    let a = g.add_rows(k);
    let pushed = g.lines + blank_lines(k, g.cols);
    let keep = min(pushed.len() as int, (g.rows + g.max_scrollback) as int);
    assert forall|r: int| 0 <= r < a.rows implies (#[trigger] a.screen_line(r)).len() == a.cols by {
        let j = pushed.len() - keep + a.screen_start() + r;
        assert(a.screen_line(r) == pushed[j]);
        if j < g.lines.len() {
            assert(pushed[j] == g.lines[j]);
        } else {
            assert(pushed[j] == blank_line(g.cols));
        }
    }
}

/// Adding one line is adding one blank line.
proof fn lemma_add_row_one(g: GridView)
    ensures
        g.add_row() == g.add_rows(1),
{
    assert(g.lines.push(blank_line(g.cols)) =~= g.lines + blank_lines(1, g.cols));
    assert(g.add_row().lines =~= g.add_rows(1).lines);
}

/// What a resized screen holds before its width changes: at least as many lines as
/// screen lines, and every screen line as wide as before.
pub open spec fn screen_ready(g: GridView) -> bool {
    &&& 1 <= g.rows <= Grid::MAX_ROWS
    &&& 1 <= g.cols <= Grid::MAX_COLS
    &&& g.rows + g.max_scrollback <= usize::MAX
    &&& g.rows <= g.lines.len() <= usize::MAX
    &&& g.viewport_offset <= usize::MAX
    &&& forall|r: int| 0 <= r < g.rows ==> (#[trigger] g.screen_line(r)).len() == g.cols
}

/// Adding a line to a well-formed grid keeps it well-formed.
proof fn lemma_add_row_wf(g: GridView)
    requires
        g.wf(),
    ensures
        g.add_row() == g.add_rows(1),
        g.add_row().wf(),
{
    assert(g.lines.push(blank_line(g.cols)) =~= g.lines + blank_lines(1, g.cols));
    assert(g.add_row().lines =~= g.add_rows(1).lines);
    assert forall|i: int| g.lines.len() + 1 - g.rows <= i < g.lines.len() implies (#[trigger] g.lines[i]).len() == g.cols by {
        assert(g.lines[i] == g.screen_line(i - g.screen_start()));
    }
    lemma_add_rows_wf(g, 1);
}

/// Whether a cell is the right half of a wide character.
pub open spec fn is_spacer(cell: Cell) -> bool {
    cell.flags.bits & CellFlags::WIDE_CHAR_SPACER == CellFlags::WIDE_CHAR_SPACER
}

/// The characters of cells `lo..hi` of a line, the right halves of wide characters left out.
pub open spec fn cells_text(line: Seq<Cell>, lo: int, hi: int) -> Seq<char>
    decreases hi - lo,
{
    if hi <= lo {
        Seq::empty()
    } else {
        let rest = cells_text(line, lo, hi - 1);
        if is_spacer(line[hi - 1]) {
            rest
        } else {
            rest.push(line[hi - 1].c)
        }
    }
}

/// The text of buffer lines `r..=end.row` between `begin` and `end` (both included):
/// the first line from `begin.col`, the last up to `end.col`, each line that ends
/// before `end` followed by a newline, lines past the buffer left out.
pub open spec fn text_from(lines: Seq<Seq<Cell>>, r: int, begin: Point, end: Point) -> Seq<char>
    decreases end.row + 1 - r,
{
    if r < 0 || r > end.row || r >= lines.len() {
        Seq::empty()
    } else {
        let line = lines[r];
        let lo = if r == begin.row {
            begin.col as int
        } else {
            0
        };
        let stop = max(lo, end.col + 1);
        if r == end.row && stop < line.len() {
            cells_text(line, lo, stop)
        } else {
            cells_text(line, lo, line.len() as int) + seq!['\n'] + text_from(lines, r + 1, begin, end)
        }
    }
}

/// The text between buffer positions `begin` and `end`, both included.
pub open spec fn text_between(lines: Seq<Seq<Cell>>, begin: Point, end: Point) -> Seq<char> {
    text_from(lines, begin.row as int, begin, end)
}

/// A position on the right half of a wide character moved onto its left half.
pub open spec fn snap_back(lines: Seq<Seq<Cell>>, p: Point) -> Point {
    if p.row < lines.len() && p.col < lines[p.row as int].len() && is_spacer(lines[p.row as int][p.col as int]) {
        Point { col: max(p.col - 1, 0) as usize, ..p }
    } else {
        p
    }
}

/// A position on the right half of a wide character moved one column right, past it.
pub open spec fn snap_forward(lines: Seq<Seq<Cell>>, p: Point) -> Point {
    if p.row < lines.len() && p.col < lines[p.row as int].len() && is_spacer(lines[p.row as int][p.col as int]) {
        Point { col: (p.col + 1) as usize, ..p }
    } else {
        p
    }
}

/// Setting one screen cell keeps a grid well-formed.
proof fn lemma_set_cell_wf(g: GridView, r: int, c: int, cell: Cell)
    requires
        g.wf(),
        0 <= r < g.rows,
        0 <= c < g.cols,
    ensures
        g.set_screen_cell(r, c, cell).wf(),
        g.set_screen_cell(r, c, cell).lines.len() == g.lines.len(),
{
    let a = g.set_screen_cell(r, c, cell);
    assert forall|rr: int| 0 <= rr < a.rows implies (#[trigger] a.screen_line(rr)).len() == a.cols by {
        assert(g.screen_line(rr).len() == g.cols);
    }
}

/// The screen, the scrollback above it, and the cursor.
#[derive(Clone, Debug)]
pub struct Grid {
    buffer: VecDeque<Row>,
    rows: usize,
    cols: usize,
    max_scrollback: usize,
    viewport_offset: usize,
    cursor: CursorState,
    saved_cursor: CursorState,
}

impl View for Grid {
    type V = GridView;

    closed spec fn view(&self) -> GridView {
        GridView {
            lines: lines_of(self.buffer@),
            rows: self.rows as nat,
            cols: self.cols as nat,
            max_scrollback: self.max_scrollback as nat,
            viewport_offset: self.viewport_offset as nat,
            cursor: self.cursor,
            saved_cursor: self.saved_cursor,
        }
    }
}

impl Grid {
    pub const MIN_ROWS: usize = 1;
    pub const MIN_COLS: usize = 1;
    pub const MAX_ROWS: usize = 0xffff;
    pub const MAX_COLS: usize = 0xffff;

    /// Whether the grid keeps its invariant.
    pub open spec fn wf(&self) -> bool {
        self@.wf()
    }

    /// A screen of `rows` blank lines of `cols` cells, no scrollback, the cursor at
    /// the top left corner.
    pub fn new(rows: usize, cols: usize, max_scrollback: usize) -> (g: Grid)
        requires
            Self::MIN_ROWS <= rows <= Self::MAX_ROWS,
            Self::MIN_COLS <= cols <= Self::MAX_COLS,
            rows + max_scrollback <= usize::MAX,
        ensures
            g.wf(),
            g@ == (GridView {
                lines: blank_lines(rows as nat, cols as nat),
                rows: rows as nat,
                cols: cols as nat,
                max_scrollback: max_scrollback as nat,
                viewport_offset: 0,
                cursor: default_cursor(),
                saved_cursor: default_cursor(),
            }),
    {
        let mut buffer: VecDeque<Row> = VecDeque::with_capacity(rows);
        let mut i: usize = 0;
        while i < rows
            invariant
                i <= rows,
                buffer@.len() == i,
                forall|j: int| 0 <= j < i ==> (#[trigger] buffer@[j])@ == blank_line(cols as nat),
            decreases rows - i,
        {
            buffer.push_back(Row::new(cols));
            i = i + 1;
        }
        let g = Grid {
            buffer,
            rows,
            cols,
            max_scrollback,
            viewport_offset: 0,
            cursor: CursorState::default(),
            saved_cursor: CursorState::default(),
        };
        assert(g@.lines =~= blank_lines(rows as nat, cols as nat));
        g
    }

    /// The number of screen lines.
    pub fn grid_rows(&self) -> (r: usize)
        ensures
            r == self@.rows,
    {
        self.rows
    }

    /// The number of screen columns.
    pub fn grid_cols(&self) -> (r: usize)
        ensures
            r == self@.cols,
    {
        self.cols
    }

    /// The number of lines in the buffer, scrollback and screen.
    pub fn buffer_len(&self) -> (r: usize)
        ensures
            r == self@.lines.len(),
    {
        self.buffer.len()
    }

    /// The cursor.
    pub fn cursor(&self) -> (r: &CursorState)
        ensures
            *r == self@.cursor,
    {
        &self.cursor
    }

    /// The template cell of the cursor.
    pub fn cursor_template(&self) -> (r: &Cell)
        ensures
            *r == self@.cursor.template,
    {
        &self.cursor.template
    }

    /// Mutable access to the template cell of the cursor.
    pub fn cursor_template_mut(&mut self) -> (r: &mut Cell)
        ensures
            *r == old(self)@.cursor.template,
            final(self)@ == (GridView {
                cursor: CursorState { template: *final(r), ..old(self)@.cursor },
                ..old(self)@
            }),
    {
        &mut self.cursor.template
    }

    /// Saves the cursor.
    pub fn save_cursor(&mut self)
        requires
            old(self).wf(),
        ensures
            final(self).wf(),
            final(self)@ == old(self)@.save_cursor(),
    {
        self.saved_cursor = self.cursor;
        proof {
            lemma_wf_same_lines(old(self)@, self@);
        }
    }

    /// Brings back the saved cursor, clamped to the screen.
    pub fn restore_cursor(&mut self)
        requires
            old(self).wf(),
        ensures
            final(self).wf(),
            final(self)@ == old(self)@.restore_cursor(),
    {
        self.cursor = self.saved_cursor;
        self.clamp_cursor();
        proof {
            lemma_wf_same_lines(old(self)@, self@);
        }
    }

    /// Clamps the cursor to the screen.
    fn clamp_cursor(&mut self)
        requires
            old(self)@.rows >= 1,
            old(self)@.cols >= 1,
        ensures
            final(self)@ == (GridView {
                cursor: CursorState {
                    point: Point {
                        row: min(old(self)@.cursor.point.row as int, old(self)@.rows - 1) as usize,
                        col: min(old(self)@.cursor.point.col as int, old(self)@.cols - 1) as usize,
                    },
                    ..old(self)@.cursor
                },
                ..old(self)@
            }),
    {
        if self.cursor.point.row > self.rows - 1 {
            self.cursor.point.row = self.rows - 1;
        }
        if self.cursor.point.col > self.cols - 1 {
            self.cursor.point.col = self.cols - 1;
        }
    }

    /// Moves the cursor to `(row, col)`, clamped to the screen, and drops a pending wrap.
    fn move_cursor(&mut self, row: usize, col: usize)
        requires
            old(self).wf(),
        ensures
            final(self).wf(),
            final(self)@ == old(self)@.moved(row as int, col as int),
    {
        self.cursor.point.row = row;
        self.cursor.point.col = col;
        self.clamp_cursor();
        self.cursor.pending_wrap = false;
        proof {
            lemma_wf_same_lines(old(self)@, self@);
        }
    }

    /// Moves the cursor `n` lines up, stopping at the top line.
    pub fn cursor_up(&mut self, n: usize)
        requires
            old(self).wf(),
        ensures
            final(self).wf(),
            final(self)@ == old(self)@.cursor_up(n as nat),
    {
        let row = self.cursor.point.row.saturating_sub(n);
        let col = self.cursor.point.col;
        self.move_cursor(row, col);
    }

    /// Moves the cursor `n` lines down, stopping at the bottom line.
    pub fn cursor_down(&mut self, n: usize)
        requires
            old(self).wf(),
            old(self)@.cursor.point.row + n <= usize::MAX,
        ensures
            final(self).wf(),
            final(self)@ == old(self)@.cursor_down(n as nat),
    {
        let row = self.cursor.point.row + n;
        let col = self.cursor.point.col;
        self.move_cursor(row, col);
    }

    /// Moves the cursor `n` columns right, stopping at the last column.
    pub fn cursor_right(&mut self, n: usize)
        requires
            old(self).wf(),
            old(self)@.cursor.point.col + n <= usize::MAX,
        ensures
            final(self).wf(),
            final(self)@ == old(self)@.cursor_right(n as nat),
    {
        let row = self.cursor.point.row;
        let col = self.cursor.point.col + n;
        self.move_cursor(row, col);
    }

    /// Moves the cursor `n` columns left, stopping at the first column.
    pub fn cursor_left(&mut self, n: usize)
        requires
            old(self).wf(),
        ensures
            final(self).wf(),
            final(self)@ == old(self)@.cursor_left(n as nat),
    {
        let row = self.cursor.point.row;
        let col = self.cursor.point.col.saturating_sub(n);
        self.move_cursor(row, col);
    }

    /// Moves the cursor to `(row, col)`, clamped to the screen.
    pub fn cursor_goto(&mut self, row: usize, col: usize)
        requires
            old(self).wf(),
        ensures
            final(self).wf(),
            final(self)@ == old(self)@.moved(row as int, col as int),
    {
        self.move_cursor(row, col);
    }

    /// Moves the cursor to line `row`, clamped to the screen.
    pub fn cursor_goto_row(&mut self, row: usize)
        requires
            old(self).wf(),
        ensures
            final(self).wf(),
            final(self)@ == old(self)@.moved(row as int, old(self)@.cursor.point.col as int),
    {
        let col = self.cursor.point.col;
        self.move_cursor(row, col);
    }

    /// Moves the cursor to column `col`, clamped to the screen.
    pub fn cursor_goto_col(&mut self, col: usize)
        requires
            old(self).wf(),
        ensures
            final(self).wf(),
            final(self)@ == old(self)@.moved(old(self)@.cursor.point.row as int, col as int),
    {
        let row = self.cursor.point.row;
        self.move_cursor(row, col);
    }

    /// Carriage return: the cursor to the first column.
    pub fn carriage_return(&mut self)
        requires
            old(self).wf(),
        ensures
            final(self).wf(),
            final(self)@ == old(self)@.carriage_return(),
    {
        let row = self.cursor.point.row;
        self.move_cursor(row, 0);
    }

    /// Backspace: the cursor one column left, stopping at the first column.
    pub fn backspace(&mut self)
        requires
            old(self).wf(),
        ensures
            final(self).wf(),
            final(self)@ == old(self)@.cursor_left(1),
    {
        let row = self.cursor.point.row;
        let col = self.cursor.point.col.saturating_sub(1);
        self.move_cursor(row, col);
    }

    /// Horizontal tab: the cursor to the next multiple of 8, stopping at the last column.
    pub fn tab(&mut self)
        requires
            old(self).wf(),
        ensures
            final(self).wf(),
            final(self)@ == old(self)@.moved(
                old(self)@.cursor.point.row as int,
                round_up8(old(self)@.cursor.point.col + 1),
            ),
    {
        let row = self.cursor.point.row;
        let next = self.cursor.point.col + 1;
        let col = if next % 8 == 0 {
            next
        } else {
            next + (8 - next % 8)
        };
        self.move_cursor(row, col);
    }

    /// The blank cell on the background of the cursor's template.
    fn erase_template(&self) -> (r: Cell)
        ensures
            r == erased_cell(self@.cursor.template),
    {
        let blank = Cell::blank();
        Cell { c: blank.c, fg: blank.fg, bg: self.cursor.template.bg, flags: blank.flags }
    }

    /// Sets cells `lo..hi` of screen line `r` to `cell`.
    fn fill_screen_row(&mut self, r: usize, lo: usize, hi: usize, cell: Cell)
        requires
            old(self).wf(),
            r < old(self)@.rows,
            lo <= hi <= old(self)@.cols,
        ensures
            final(self).wf(),
            final(self)@ == old(self)@.fill_screen(|rr: int, c: int| rr == r && lo <= c < hi, cell),
    {
        let ghost g = self@;
        let idx = self.buffer.len() - self.rows + r;
        proof {
            assert(g.screen_line(r as int) == self.buffer@[idx as int]@);
        }
        deque_row_mut(&mut self.buffer, idx).fill_range(lo, hi, cell);
        proof {
            let target = g.fill_screen(|rr: int, c: int| rr == r && lo <= c < hi, cell);
            assert forall|i: int| 0 <= i < self@.lines.len() implies self@.lines[i] =~= target.lines[i] by {}
            assert(self@.lines =~= target.lines);
            lemma_fill_wf(g, |rr: int, c: int| rr == r && lo <= c < hi, cell);
        }
    }

    /// Sets every cell of screen lines `lo..hi` to `cell`.
    fn fill_screen_rows(&mut self, lo: usize, hi: usize, cell: Cell)
        requires
            old(self).wf(),
            lo <= hi <= old(self)@.rows,
        ensures
            final(self).wf(),
            final(self)@ == old(self)@.fill_screen(|rr: int, c: int| lo <= rr < hi, cell),
    {
        let ghost g = self@;
        let cols = self.cols;
        let mut r: usize = lo;
        proof {
            let a = g.fill_screen(|rr: int, c: int| lo <= rr < lo, cell);
            assert forall|i: int| 0 <= i < a.lines.len() implies a.lines[i] =~= g.lines[i] by {}
            assert(a.lines =~= g.lines);
        }
        while r < hi
            invariant
                g.wf(),
                self.wf(),
                lo <= r <= hi,
                hi <= g.rows,
                cols == g.cols,
                self@ == g.fill_screen(|rr: int, c: int| lo <= rr < r, cell),
            decreases hi - r,
        {
            self.fill_screen_row(r, 0, cols, cell);
            proof {
                lemma_fill_union(g, |rr: int, c: int| lo <= rr < r, |rr: int, c: int| rr == r && 0 <= c < cols,
                    |rr: int, c: int| lo <= rr < r + 1, cell);
            }
            r = r + 1;
        }
    }

    /// Every screen cell blank.
    pub fn clear(&mut self)
        requires
            old(self).wf(),
        ensures
            final(self).wf(),
            final(self)@ == old(self)@.clear(),
    {
        let ghost g = self@;
        let rows = self.rows;
        self.fill_screen_rows(0, rows, Cell::blank());
        proof {
            lemma_fill_ext(g, |rr: int, c: int| 0 <= rr < rows, |rr: int, c: int| true, default_cell());
        }
    }

    /// Erase in display: mode 0 erases from the cursor to the end of the screen,
    /// mode 1 from the start of the screen to the cursor, mode 2 the whole screen;
    /// other modes change nothing.
    pub fn erase_display(&mut self, mode: usize)
        requires
            old(self).wf(),
        ensures
            final(self).wf(),
            final(self)@ == old(self)@.erase_display(mode as nat),
    {
        let ghost g = self@;
        let cell = self.erase_template();
        let row = self.cursor.point.row;
        let col = self.cursor.point.col;
        let cols = self.cols;
        let rows = self.rows;
        if mode == 0 {
            self.fill_screen_row(row, col, cols, cell);
            self.fill_screen_rows(row + 1, rows, cell);
            proof {
                lemma_fill_union(g, |rr: int, c: int| rr == row && col <= c < cols, |rr: int, c: int| row + 1 <= rr < rows,
                    |rr: int, c: int| (rr == row && c >= col) || rr > row, cell);
            }
        } else if mode == 1 {
            self.fill_screen_row(row, 0, col + 1, cell);
            self.fill_screen_rows(0, row, cell);
            proof {
                lemma_fill_union(g, |rr: int, c: int| rr == row && 0 <= c < col + 1, |rr: int, c: int| 0 <= rr < row,
                    |rr: int, c: int| (rr == row && c <= col) || rr < row, cell);
            }
        } else if mode == 2 {
            self.fill_screen_rows(0, rows, cell);
            proof {
                lemma_fill_ext(g, |rr: int, c: int| 0 <= rr < rows, |rr: int, c: int| true, cell);
            }
        }
    }

    /// Erase in line: mode 0 erases from the cursor to the end of its line, mode 1
    /// from the start of the line to the cursor, mode 2 the whole line; other modes
    /// change nothing.
    pub fn erase_row(&mut self, mode: usize)
        requires
            old(self).wf(),
        ensures
            final(self).wf(),
            final(self)@ == old(self)@.erase_row(mode as nat),
    {
        let ghost g = self@;
        let cell = self.erase_template();
        let row = self.cursor.point.row;
        let col = self.cursor.point.col;
        let cols = self.cols;
        if mode == 0 {
            self.fill_screen_row(row, col, cols, cell);
            proof {
                lemma_fill_ext(g, |rr: int, c: int| rr == row && col <= c < cols, |rr: int, c: int| rr == row && c >= col, cell);
            }
        } else if mode == 1 {
            self.fill_screen_row(row, 0, col + 1, cell);
            proof {
                lemma_fill_ext(g, |rr: int, c: int| rr == row && 0 <= c < col + 1, |rr: int, c: int| rr == row && c <= col, cell);
            }
        } else if mode == 2 {
            self.fill_screen_row(row, 0, cols, cell);
            proof {
                lemma_fill_ext(g, |rr: int, c: int| rr == row && 0 <= c < cols, |rr: int, c: int| rr == row, cell);
            }
        }
    }

    /// Erase characters: `n` cells from the cursor on, within its line.
    pub fn erase_chars(&mut self, n: usize)
        requires
            old(self).wf(),
        ensures
            final(self).wf(),
            final(self)@ == old(self)@.erase_chars(n as nat),
    {
        let ghost g = self@;
        let cell = self.erase_template();
        let row = self.cursor.point.row;
        let col = self.cursor.point.col;
        let cols = self.cols;
        let hi = if n < cols - col {
            col + n
        } else {
            cols
        };
        self.fill_screen_row(row, col, hi, cell);
        proof {
            lemma_fill_ext(g, |rr: int, c: int| rr == row && col <= c < hi, |rr: int, c: int| rr == row && col <= c < col + n, cell);
        }
    }

    /// Adds a blank line below the buffer and drops the oldest lines while the
    /// scrollback is over its limit.
    fn add_row(&mut self)
        requires
            old(self)@.rows + old(self)@.max_scrollback <= usize::MAX,
            old(self)@.rows + old(self)@.max_scrollback >= 1,
        ensures
            final(self)@ == old(self)@.add_row(),
    {
        let ghost g = self@;
        let ghost pushed = g.lines.push(blank_line(g.cols));
        let ghost bound = g.rows + g.max_scrollback;
        let row = Row::new(self.cols);
        proof {
            lemma_lines_of_ops(self.buffer@, row, 0);
        }
        self.buffer.push_back(row);
        let ghost mut dropped: int = 0;
        while self.max_scrollback + self.rows < self.buffer.len()
            invariant
                self.rows == g.rows,
                self.cols == g.cols,
                self.max_scrollback == g.max_scrollback,
                self.viewport_offset == g.viewport_offset,
                self.cursor == g.cursor,
                self.saved_cursor == g.saved_cursor,
                bound == g.rows + g.max_scrollback,
                bound <= usize::MAX,
                bound >= 1,
                0 <= dropped <= pushed.len(),
                self@.lines == pushed.subrange(dropped, pushed.len() as int),
                dropped > 0 ==> self@.lines.len() >= bound,
            decreases self.buffer@.len(),
        {
            proof {
                lemma_lines_of_ops(self.buffer@, row, 0);
            }
            self.buffer.pop_front();
            proof {
                dropped = dropped + 1;
                assert(self@.lines =~= pushed.subrange(dropped, pushed.len() as int));
            }
        }
        assert(self@.lines =~= g.add_row().lines);
    }

    /// Line feed: the cursor one line down, or, on the bottom line, a new line
    /// scrolled in.
    pub fn linefeed(&mut self)
        requires
            old(self).wf(),
        ensures
            final(self).wf(),
            final(self)@ == old(self)@.linefeed(),
    {
        let ghost g = self@;
        if self.rows - 1 == self.cursor.point.row {
            self.add_row();
            proof {
                lemma_add_row_wf(g);
            }
        } else {
            self.cursor.point.row = self.cursor.point.row + 1;
            proof {
                lemma_wf_same_lines(g, self@);
            }
        }
        let row = self.cursor.point.row;
        let col = self.cursor.point.col;
        self.move_cursor(row, col);
    }

    /// Reverse index: the cursor one line up, or, on the top line, a blank line
    /// inserted at the top of the screen and the bottom screen line dropped.
    pub fn reverse_index(&mut self)
        requires
            old(self).wf(),
        ensures
            final(self).wf(),
            final(self)@ == old(self)@.reverse_index(),
    {
        let ghost g = self@;
        if 0 < self.cursor.point.row {
            let row = self.cursor.point.row - 1;
            let col = self.cursor.point.col;
            self.move_cursor(row, col);
        } else {
            let row = Row::new(self.cols);
            proof {
                lemma_lines_of_ops(self.buffer@, row, 0);
            }
            self.buffer.pop_back();
            let insert_idx = self.buffer.len() - (self.rows - 1);
            proof {
                lemma_lines_of_ops(self.buffer@, row, insert_idx as int);
            }
            self.buffer.insert(insert_idx, row);
            self.cursor.pending_wrap = false;
            proof {
                assert(self@.lines =~= g.reverse_index().lines);
                let a = self@;
                assert forall|r: int| 0 <= r < a.rows implies (#[trigger] a.screen_line(r)).len() == a.cols by {
                    if r > 0 {
                        assert(a.screen_line(r) == g.screen_line(r - 1));
                    }
                }
            }
        }
    }

    /// Insert lines: `n` blank lines (at most to the bottom of the screen) inserted at
    /// the cursor line; the lines pushed below the screen are dropped.
    pub fn insert_lines(&mut self, n: usize)
        requires
            old(self).wf(),
        ensures
            final(self).wf(),
            final(self)@ == old(self)@.insert_lines(n as nat),
    {
        let ghost g = self@;
        let k = if n < self.rows - self.cursor.point.row {
            n
        } else {
            self.rows - self.cursor.point.row
        };
        let cursor_idx = self.buffer.len() - self.rows + self.cursor.point.row;
        let mut j: usize = 0;
        while j < k
            invariant
                g.wf(),
                j <= k,
                k == g.lines_below(n as nat),
                cursor_idx == g.screen_start() + g.cursor.point.row,
                self.rows == g.rows,
                self.cols == g.cols,
                self.max_scrollback == g.max_scrollback,
                self.viewport_offset == g.viewport_offset,
                self.cursor == g.cursor,
                self.saved_cursor == g.saved_cursor,
                self.buffer@.len() == g.lines.len() + j,
                self@.lines == g.lines.subrange(0, cursor_idx as int) + blank_lines(j as nat, g.cols)
                    + g.lines.subrange(cursor_idx as int, g.lines.len() as int),
            decreases k - j,
        {
            let row = Row::new(self.cols);
            proof {
                lemma_lines_of_ops(self.buffer@, row, cursor_idx as int);
            }
            self.buffer.insert(cursor_idx, row);
            j = j + 1;
            assert(self@.lines =~= g.lines.subrange(0, cursor_idx as int) + blank_lines(j as nat, g.cols)
                    + g.lines.subrange(cursor_idx as int, g.lines.len() as int));
        }
        let mut j: usize = 0;
        while j < k
            invariant
                g.wf(),
                j <= k,
                k == g.lines_below(n as nat),
                cursor_idx == g.screen_start() + g.cursor.point.row,
                self.rows == g.rows,
                self.cols == g.cols,
                self.max_scrollback == g.max_scrollback,
                self.viewport_offset == g.viewport_offset,
                self.cursor == g.cursor,
                self.saved_cursor == g.saved_cursor,
                self.buffer@.len() == g.lines.len() + k - j,
                self@.lines == g.lines.subrange(0, cursor_idx as int) + blank_lines(k as nat, g.cols)
                    + g.lines.subrange(cursor_idx as int, g.lines.len() - j),
            decreases k - j,
        {
            let ghost b = self.buffer@;
            self.buffer.pop_back();
            proof {
                lemma_lines_of_ops(b, b[0], 0);
            }
            j = j + 1;
            assert(self@.lines =~= g.lines.subrange(0, cursor_idx as int) + blank_lines(k as nat, g.cols)
                    + g.lines.subrange(cursor_idx as int, g.lines.len() - j));
        }
        self.cursor.pending_wrap = false;
        proof {
            let a = self@;
            assert(a.lines =~= g.insert_lines(n as nat).lines);
            assert forall|r: int| 0 <= r < a.rows implies (#[trigger] a.screen_line(r)).len() == a.cols by {
                let i = a.screen_start() + r;
                if i >= cursor_idx + k {
                    assert(a.lines[i] == g.lines[i - k]);
                    assert(g.lines[i - k] == g.screen_line(r - k));
                } else if i < cursor_idx {
                    assert(a.lines[i] == g.screen_line(r));
                }
            }
        }
    }

    /// Delete lines: `n` lines (at most to the bottom of the screen) removed at the
    /// cursor line; blank lines added at the bottom of the screen.
    pub fn delete_lines(&mut self, n: usize)
        requires
            old(self).wf(),
        ensures
            final(self).wf(),
            final(self)@ == old(self)@.delete_lines(n as nat),
    {
        let ghost g = self@;
        let k = if n < self.rows - self.cursor.point.row {
            n
        } else {
            self.rows - self.cursor.point.row
        };
        let cursor_idx = self.buffer.len() - self.rows + self.cursor.point.row;
        let mut j: usize = 0;
        while j < k
            invariant
                g.wf(),
                j <= k,
                k == g.lines_below(n as nat),
                cursor_idx == g.screen_start() + g.cursor.point.row,
                self.rows == g.rows,
                self.cols == g.cols,
                self.max_scrollback == g.max_scrollback,
                self.viewport_offset == g.viewport_offset,
                self.cursor == g.cursor,
                self.saved_cursor == g.saved_cursor,
                self.buffer@.len() == g.lines.len() - j,
                self@.lines == g.lines.subrange(0, cursor_idx as int) + g.lines.subrange(
                    cursor_idx + j,
                    g.lines.len() as int,
                ),
            decreases k - j,
        {
            let ghost b = self.buffer@;
            self.buffer.remove(cursor_idx);
            proof {
                lemma_lines_of_ops(b, b[0], cursor_idx as int);
            }
            j = j + 1;
            assert(self@.lines =~= g.lines.subrange(0, cursor_idx as int) + g.lines.subrange(
                    cursor_idx + j,
                    g.lines.len() as int,
                ));
        }
        let mut j: usize = 0;
        while j < k
            invariant
                g.wf(),
                j <= k,
                k == g.lines_below(n as nat),
                cursor_idx == g.screen_start() + g.cursor.point.row,
                self.rows == g.rows,
                self.cols == g.cols,
                self.max_scrollback == g.max_scrollback,
                self.viewport_offset == g.viewport_offset,
                self.cursor == g.cursor,
                self.saved_cursor == g.saved_cursor,
                self@.lines == g.lines.subrange(0, cursor_idx as int) + g.lines.subrange(
                    cursor_idx + k,
                    g.lines.len() as int,
                ) + blank_lines(j as nat, g.cols),
                self.buffer@.len() == g.lines.len() - k + j,
            decreases k - j,
        {
            let row = Row::new(self.cols);
            proof {
                lemma_lines_of_ops(self.buffer@, row, 0);
            }
            self.buffer.push_back(row);
            j = j + 1;
            assert(self@.lines =~= g.lines.subrange(0, cursor_idx as int) + g.lines.subrange(
                    cursor_idx + k,
                    g.lines.len() as int,
                ) + blank_lines(j as nat, g.cols));
        }
        self.cursor.pending_wrap = false;
        proof {
            let a = self@;
            assert(a.lines =~= g.delete_lines(n as nat).lines);
            assert forall|r: int| 0 <= r < a.rows implies (#[trigger] a.screen_line(r)).len() == a.cols by {
                let i = a.screen_start() + r;
                if i < cursor_idx {
                    assert(a.lines[i] == g.screen_line(r));
                } else if i < g.lines.len() - k {
                    assert(a.lines[i] == g.lines[i + k]);
                    assert(g.lines[i + k] == g.screen_line(r + k));
                }
            }
        }
    }

    /// Changes the screen height to `rows` lines (at least one).
    fn resize_rows_to(&mut self, rows: usize)
        requires
            old(self).wf(),
            1 <= rows <= Self::MAX_ROWS,
            rows + old(self)@.max_scrollback <= usize::MAX,
        ensures
            final(self)@ == old(self)@.resize_rows(rows as nat),
            screen_ready(final(self)@),
    {
        let ghost g = self@;
        if rows != self.rows {
            if self.rows < rows {
                let add = rows - self.rows;
                self.rows = rows;
                let ghost g1 = self@;
                let mut j: usize = 0;
                while j < add
                    invariant
                        j <= add,
                        add == rows - g.rows,
                        g1 == (GridView { rows: rows as nat, ..g }),
                        self.rows == rows,
                        rows + self.max_scrollback <= usize::MAX,
                        g1.max_scrollback == self.max_scrollback,
                        j == 0 ==> self@ == g1,
                        j > 0 ==> self@ == g1.add_rows(j as nat),
                    decreases add - j,
                {
                    let ghost before = self@;
                    self.add_row();
                    proof {
                        if j == 0 {
                            lemma_add_row_one(g1);
                        } else {
                            lemma_add_rows_step(g1, j as nat);
                        }
                    }
                    j = j + 1;
                }
                proof {
                    assert forall|i: int| g1.lines.len() + add - g1.rows <= i < g1.lines.len() implies (#[trigger] g1.lines[i]).len() == g1.cols by {
                        assert(g1.lines[i] == g.screen_line(i - g.screen_start()));
                    }
                    lemma_add_rows_wf(g1, add as nat);
                }
            } else {
                let delete = if self.rows - rows < self.rows - self.cursor.point.row - 1 {
                    self.rows - rows
                } else {
                    self.rows - self.cursor.point.row - 1
                };
                let mut j: usize = 0;
                while j < delete
                    invariant
                        g.wf(),
                        j <= delete,
                        delete == min(g.rows - rows, g.rows - g.cursor.point.row - 1),
                        self.rows == g.rows,
                        self.cols == g.cols,
                        self.max_scrollback == g.max_scrollback,
                        self.viewport_offset == g.viewport_offset,
                        self.cursor == g.cursor,
                        self.saved_cursor == g.saved_cursor,
                        self.buffer@.len() == g.lines.len() - j,
                        self@.lines == g.lines.subrange(0, g.lines.len() - j),
                    decreases delete - j,
                {
                    let ghost b = self.buffer@;
                    self.buffer.pop_back();
                    proof {
                        lemma_lines_of_ops(b, b[0], 0);
                    }
                    j = j + 1;
                    assert(self@.lines =~= g.lines.subrange(0, g.lines.len() - j));
                }
                self.rows = rows;
                proof {
                    let a = self@;
                    assert forall|r: int| 0 <= r < a.rows implies (#[trigger] a.screen_line(r)).len() == a.cols by {
                        let i = a.screen_start() + r;
                        assert(a.lines[i] == g.lines[i]);
                        assert(g.lines[i] == g.screen_line(i - g.screen_start()));
                    }
                }
            }
        }
    }

    /// Changes the screen width to `cols` columns (at least one), cutting or padding
    /// every screen line.
    fn resize_cols_to(&mut self, cols: usize)
        requires
            screen_ready(old(self)@),
            1 <= cols <= Self::MAX_COLS,
        ensures
            final(self)@ == old(self)@.resize_cols(cols as nat),
            screen_ready(final(self)@),
    {
        let ghost g = self@;
        if cols != self.cols {
            let rows = self.rows;
            let start = self.buffer.len() - rows;
            let mut y: usize = 0;
            while y < rows
                invariant
                    screen_ready(g),
                    y <= rows,
                    rows == g.rows,
                    start == g.screen_start(),
                    self.rows == g.rows,
                    self.cols == g.cols,
                    self.max_scrollback == g.max_scrollback,
                    self.viewport_offset == g.viewport_offset,
                    self.cursor == g.cursor,
                    self.saved_cursor == g.saved_cursor,
                    self.buffer@.len() == g.lines.len(),
                    self@.lines == Seq::new(
                        g.lines.len(),
                        |i: int|
                            if start <= i < start + y {
                                resize_line(g.lines[i], cols as nat)
                            } else {
                                g.lines[i]
                            },
                    ),
                decreases rows - y,
            {
                let idx = start + y;
                let ghost b = self.buffer@;
                proof {
                    assert(self@.lines[idx as int] == b[idx as int]@);
                }
                deque_row_mut(&mut self.buffer, idx).resize(cols);
                proof {
                    lemma_lines_of_ops(b, self.buffer@[idx as int], idx as int);
                }
                y = y + 1;
                assert(self@.lines =~= Seq::new(
                        g.lines.len(),
                        |i: int|
                            if start <= i < start + y {
                                resize_line(g.lines[i], cols as nat)
                            } else {
                                g.lines[i]
                            },
                    ));
            }
            self.cols = cols;
            proof {
                let a = self@;
                assert(a.lines =~= g.resize_cols(cols as nat).lines);
                assert forall|r: int| 0 <= r < a.rows implies (#[trigger] a.screen_line(r)).len() == a.cols by {
                    assert(a.screen_line(r) == resize_line(g.screen_line(r), cols as nat));
                }
            }
        }
    }

    /// Resizes the screen to `rows` lines and `cols` columns, at least one of each.
    /// When it grows, blank lines are added at the bottom; when it shrinks, lines below
    /// the cursor go first and the top lines stay in the scrollback. Screen lines are
    /// cut or padded to the new width; the cursor is clamped to the screen.
    pub fn resize(&mut self, rows: usize, cols: usize)
        requires
            old(self).wf(),
            rows <= Self::MAX_ROWS,
            cols <= Self::MAX_COLS,
            max(rows as int, 1) + old(self)@.max_scrollback <= usize::MAX,
        ensures
            final(self).wf(),
            final(self)@ == old(self)@.resize(rows as nat, cols as nat),
    {
        let rows = if rows < Self::MIN_ROWS {
            Self::MIN_ROWS
        } else {
            rows
        };
        let cols = if cols < Self::MIN_COLS {
            Self::MIN_COLS
        } else {
            cols
        };
        self.resize_rows_to(rows);
        self.resize_cols_to(cols);
        let ghost ready = self@;
        self.clamp_cursor();
        self.cursor.pending_wrap = false;
        proof {
            let b = self@;
            assert forall|r: int| 0 <= r < b.rows implies (#[trigger] b.screen_line(r)).len() == b.cols by {
                assert(b.screen_line(r) == ready.screen_line(r));
            }
        }
    }

    /// How far the view is scrolled back from the bottom, in lines.
    pub fn viewport_offset(&self) -> (r: usize)
        ensures
            r == self@.viewport_offset,
    {
        self.viewport_offset
    }

    /// The number of scrollback lines above the screen.
    fn scrollback_len(&self) -> (r: usize)
        requires
            self.wf(),
        ensures
            r == self@.screen_start(),
    {
        self.buffer.len() - self.rows
    }

    /// Scrolls the view back by `lines` lines (forward when negative), between the
    /// bottom and the oldest scrollback line.
    pub fn scroll(&mut self, lines: isize)
        requires
            old(self).wf(),
        ensures
            final(self).wf(),
            final(self)@ == old(self)@.scroll(lines as int),
    {
        let ghost g = self@;
        let offset = self.viewport_offset;
        let moved: usize = if lines >= 0 {
            let l = lines as usize;
            if offset > usize::MAX - l {
                usize::MAX
            } else {
                offset + l
            }
        } else {
            let l = ((-(lines + 1)) as usize) + 1;
            if offset < l {
                0
            } else {
                offset - l
            }
        };
        let limit = self.scrollback_len();
        self.viewport_offset = if moved < limit {
            moved
        } else {
            limit
        };
        proof {
            lemma_wf_same_lines(g, self@);
        }
    }

    /// Scrolls the view to the bottom.
    pub fn scroll_to_bottom(&mut self)
        requires
            old(self).wf(),
        ensures
            final(self).wf(),
            final(self)@ == (GridView { viewport_offset: 0, ..old(self)@ }),
    {
        let ghost g = self@;
        self.viewport_offset = 0;
        proof {
            lemma_wf_same_lines(g, self@);
        }
    }

    /// Screen line `row`.
    pub fn screen_row(&self, row: usize) -> (r: &[Cell])
        requires
            self.wf(),
            row < self@.rows,
        ensures
            r@ == self@.screen_line(row as int),
    {
        let buffer_index = self.buffer.len() - self.rows + row;
        self.buffer[buffer_index].inner.as_slice()
    }

    /// Mutable access to screen line `row`.
    pub fn screen_row_mut(&mut self, row: usize) -> (r: &mut [Cell])
        requires
            old(self).wf(),
            row < old(self)@.rows,
        ensures
            r@ == old(self)@.screen_line(row as int),
            final(self)@ == (GridView {
                lines: old(self)@.lines.update(old(self)@.screen_start() + row, final(r)@),
                ..old(self)@
            }),
    {
        let buffer_index = self.buffer.len() - self.rows + row;
        let ghost b = self.buffer@;
        let line = deque_row_mut(&mut self.buffer, buffer_index);
        proof {
            lemma_lines_of_ops(b, *final(line), buffer_index as int);
        }
        line.inner.as_mut_slice()
    }

    /// Line `row` of what the view shows, `viewport_offset` lines above the screen.
    pub fn viewport_row(&self, row: usize) -> (r: &[Cell])
        requires
            self.wf(),
            row < self@.rows,
            self@.viewport_offset <= self@.screen_start(),
        ensures
            r@ == self@.lines[self@.screen_start() - self@.viewport_offset + row],
    {
        let buffer_index = self.buffer.len() - self.rows - self.viewport_offset + row;
        self.buffer[buffer_index].inner.as_slice()
    }

    /// The buffer index of line `row` of what the view shows.
    pub fn viewport_row_to_buffer_index(&self, row: usize) -> (r: usize)
        requires
            self.wf(),
            self@.viewport_offset <= self@.screen_start(),
            self@.screen_start() - self@.viewport_offset + row <= usize::MAX,
        ensures
            r == self@.viewport_to_buffer(row as int),
    {
        self.buffer.len() - self.rows - self.viewport_offset + row
    }

    /// The line of the view that shows buffer line `index`; negative above the view.
    pub fn buffer_index_to_viewport_row(&self, index: usize) -> (r: isize)
        requires
            self.wf(),
            index + self@.viewport_offset + self@.rows <= isize::MAX,
            self@.lines.len() <= isize::MAX,
        ensures
            r == self@.buffer_to_viewport(index as int),
    {
        (index + self.viewport_offset + self.rows) as isize - self.buffer.len() as isize
    }

    /// The text between buffer positions `begin` and `end`, both included: the first
    /// line from `begin.col`, the last up to `end.col`, a newline after each line that
    /// ends before `end`, the right halves of wide characters left out.
    pub fn get_text(&self, begin: Point, end: Point) -> (r: String)
        ensures
            r@ == text_between(self@.lines, begin, end),
    {
        let ghost lines = self@.lines;
        let ghost total = text_between(lines, begin, end);
        let mut text = String::new();
        let mut row = begin.row;
        while row <= end.row && row < self.buffer.len()
            invariant
                lines == self@.lines,
                total == text_between(lines, begin, end),
                begin.row <= row,
                total == text@ + text_from(lines, row as int, begin, end),
            decreases end.row + 1 - row,
        {
            let line = &self.buffer[row].inner;
            let ghost base = text@;
            let ghost lo: int = if row == begin.row { begin.col as int } else { 0 };
            let ghost stop: int = max(lo, end.col + 1);
            proof {
                assert(line@ == lines[row as int]);
            }
            let mut col: usize = 0;
            while col < line.len()
                invariant
                    line@ == lines[row as int],
                    lines == self@.lines,
                    total == text_between(lines, begin, end),
                    0 <= row < lines.len(),
                    row <= end.row,
                    lo == (if row == begin.row { begin.col as int } else { 0 }),
                    stop == max(lo, end.col + 1),
                    total == base + text_from(lines, row as int, begin, end),
                    col <= line@.len(),
                    row == end.row ==> col <= stop,
                    text@ == base + cells_text(line@, lo, col as int),
                decreases line@.len() - col,
            {
                if row == begin.row && col < begin.col {
                    assert(cells_text(line@, lo, col + 1) =~= Seq::<char>::empty());
                    col = col + 1;
                    continue;
                }
                if row == end.row && end.col < col {
                    assert(col == stop);
                    assert(text_from(lines, row as int, begin, end) == cells_text(line@, lo, stop));
                    assert(text@ =~= total);
                    return text;
                }
                if !line[col].flags.contains(CellFlags::WIDE_CHAR_SPACER) {
                    crate::text::string_push(&mut text, line[col].c);
                }
                assert(text@ =~= base + cells_text(line@, lo, col + 1));
                col = col + 1;
            }
            crate::text::string_push(&mut text, '\n');
            assert(text@ + text_from(lines, row + 1, begin, end) =~= base + text_from(lines, row as int, begin, end));
            if row == end.row {
                return text;
            }
            row = row + 1;
        }
        assert(text_from(lines, row as int, begin, end) =~= Seq::<char>::empty());
        assert(text@ =~= total);
        text
    }

    /// The ends of a selection snapped to whole wide characters: an anchor on the right
    /// half of one moves onto its left half, an end on the right half moves past it.
    pub fn snap_selection(&self, anchor: Point, end: Point) -> (r: (Point, Point))
        ensures
            r == (snap_back(self@.lines, anchor), snap_forward(self@.lines, end)),
    {
        let mut anchor = anchor;
        let mut end = end;
        if anchor.row < self.buffer.len() {
            let line = &self.buffer[anchor.row].inner;
            if anchor.col < line.len() && line[anchor.col].flags.contains(CellFlags::WIDE_CHAR_SPACER) {
                anchor.col = anchor.col.saturating_sub(1);
            }
        }
        if end.row < self.buffer.len() {
            let line = &self.buffer[end.row].inner;
            if end.col < line.len() && line[end.col].flags.contains(CellFlags::WIDE_CHAR_SPACER) {
                end.col = end.col + 1;
            }
        }
        (anchor, end)
    }

    /// Mutable access to the cell under the cursor (clamping the cursor first, should it
    /// be off the screen).
    fn cell_at_cursor(&mut self) -> (r: &mut Cell)
        requires
            old(self).wf(),
        ensures
            *r == old(self)@.cursor_cell(),
            final(self)@ == old(self)@.set_cursor_cell(*final(r)),
    {
        if self.rows <= self.cursor.point.row || self.cols <= self.cursor.point.col {
            self.clamp_cursor();
        }
        let ghost g = self@;
        let idx = self.buffer.len() - self.rows + self.cursor.point.row;
        let col = self.cursor.point.col;
        let ghost b = self.buffer@;
        proof {
            assert(g.screen_line(self.cursor.point.row as int).len() == g.cols);
        }
        let line = deque_row_mut(&mut self.buffer, idx);
        proof {
            let new_row = *final(line);
            lemma_lines_of_ops(b, new_row, idx as int);
        }
        &mut line.inner[col]
    }

    /// Sets the cell under the cursor.
    fn put_cell(&mut self, cell: Cell)
        requires
            old(self).wf(),
        ensures
            final(self).wf(),
            final(self)@ == old(self)@.set_cursor_cell(cell),
    {
        let ghost g = self@;
        let target = self.cell_at_cursor();
        *target = cell;
        proof {
            lemma_set_cell_wf(g, g.cursor.point.row as int, g.cursor.point.col as int, cell);
        }
    }

    /// When the cell under the cursor is half of a wide character, makes the other half
    /// a plain space.
    fn clear_wide_at_cursor(&mut self)
        requires
            old(self).wf(),
        ensures
            final(self).wf(),
            final(self)@ == old(self)@.clear_wide(),
    {
        let ghost g = self@;
        let col = self.cursor.point.col;
        let row = self.cursor.point.row;
        proof {
            assert(g.screen_line(row as int).len() == g.cols);
        }
        let flags = self.screen_row(row)[col].flags;
        if flags.contains(CellFlags::WIDE_CHAR) && col + 1 < self.cols {
            let old_cell = self.screen_row(row)[col + 1];
            let idx = self.buffer.len() - self.rows + row;
            let ghost b = self.buffer@;
            let spacer = Cell { c: ' ', fg: old_cell.fg, bg: old_cell.bg, flags: CellFlags::empty() };
            proof {
                assert(b[idx as int]@ == g.screen_line(row as int));
            }
            let line = deque_row_mut(&mut self.buffer, idx);
            proof {
                lemma_lines_of_ops(b, *final(line), idx as int);
            }
            line.set_cell(col + 1, spacer);
            proof {
                lemma_set_cell_wf(g, row as int, col + 1, spacer);
                assert(self@.lines =~= g.set_screen_cell(row as int, col + 1, spacer).lines);
            }
        }
        let ghost g1 = self@;
        if flags.contains(CellFlags::WIDE_CHAR_SPACER) && col > 0 {
            proof {
                assert(g1.screen_line(row as int).len() == g1.cols);
            }
            let old_cell = self.screen_row(row)[col - 1];
            let idx = self.buffer.len() - self.rows + row;
            let ghost b = self.buffer@;
            let wide = Cell { c: ' ', fg: old_cell.fg, bg: old_cell.bg, flags: CellFlags::empty() };
            proof {
                assert(b[idx as int]@ == g1.screen_line(row as int));
            }
            let line = deque_row_mut(&mut self.buffer, idx);
            proof {
                lemma_lines_of_ops(b, *final(line), idx as int);
            }
            line.set_cell(col - 1, wide);
            proof {
                lemma_set_cell_wf(g1, row as int, col - 1, wide);
                assert(self@.lines =~= g1.set_screen_cell(row as int, col - 1, wide).lines);
            }
        }
    }

    /// Writes character `c`, whose display width is `width`, at the cursor: the view
    /// goes to the bottom, a pending wrap is carried out first, a wide character that
    /// does not fit moves to the next line and takes two cells, and the cursor moves
    /// on (or a wrap becomes pending on the last column).
    pub fn write_char_with_width(&mut self, c: char, width: usize)
        requires
            old(self).wf(),
        ensures
            final(self).wf(),
            final(self)@ == old(self)@.write_char(c, width as nat),
    {
        let ghost g = self@;
        self.viewport_offset = 0;
        proof {
            lemma_wf_same_lines(g, self@);
        }
        if width == 0 {
            return;
        }
        let template = self.cursor.template;
        if self.cursor.pending_wrap {
            let target = self.cell_at_cursor();
            target.flags.insert(CellFlags::WRAPLINE);
            proof {
                let g0 = GridView { viewport_offset: 0, ..g };
                lemma_set_cell_wf(g0, g0.cursor.point.row as int, g0.cursor.point.col as int, *target);
            }
            self.linefeed();
            self.carriage_return();
        }
        if width == 2 {
            if self.cols - 1 <= self.cursor.point.col {
                self.put_cell(Cell { c: ' ', fg: template.fg, bg: template.bg, flags: template.flags });
                self.linefeed();
                self.carriage_return();
            }
            self.clear_wide_at_cursor();
            let mut wide = template;
            wide.c = c;
            wide.flags.insert(CellFlags::WIDE_CHAR);
            self.put_cell(wide);
            self.cursor_right(1);
            let mut spacer = template;
            spacer.c = ' ';
            spacer.flags.insert(CellFlags::WIDE_CHAR_SPACER);
            self.put_cell(spacer);
        } else {
            self.clear_wide_at_cursor();
            let mut narrow = template;
            narrow.c = c;
            self.put_cell(narrow);
        }
        let ghost g2 = self@;
        if self.cursor.point.col == self.cols - 1 {
            self.cursor.pending_wrap = true;
        } else {
            self.cursor.point.col = self.cursor.point.col + 1;
        }
        proof {
            lemma_wf_same_lines(g2, self@);
        }
    }

    /// Writes character `c` at the cursor, with the display width that the
    /// unicode-width crate gives it (none for a control character).
    pub fn write_char(&mut self, c: char)
        requires
            old(self).wf(),
        ensures
            final(self).wf(),
            final(self)@ == old(self)@.write_char(
                c,
                match crate::text::unicode_char_width(c) {
                    Some(w) => w as nat,
                    None => 0,
                },
            ),
    {
        let width = match crate::text::char_width(c) {
            Some(w) => w,
            None => 0,
        };
        self.write_char_with_width(c, width);
    }

    /// Buffer line `row`.
    pub fn line_cells(&self, row: usize) -> (r: &[Cell])
        requires
            row < self@.lines.len(),
        ensures
            r@ == self@.lines[row as int],
    {
        self.buffer[row].inner.as_slice()
    }
}


/// Saving the cursor and bringing it straight back leaves the grid as it was.
pub proof fn law_save_restore_cursor(g: GridView)
    requires
        g.wf(),
    ensures
        g.save_cursor().restore_cursor() == g.save_cursor(),
{
}

/// Every grid operation but saving the cursor keeps the saved cursor.
pub proof fn law_ops_keep_saved_cursor(
    g: GridView,
    n: nat,
    row: int,
    col: int,
    mode: nat,
    c: char,
    width: nat,
    lines: int,
    rows: nat,
    cols: nat,
)
    ensures
        g.moved(row, col).saved_cursor == g.saved_cursor,
        g.cursor_up(n).saved_cursor == g.saved_cursor,
        g.cursor_down(n).saved_cursor == g.saved_cursor,
        g.cursor_right(n).saved_cursor == g.saved_cursor,
        g.cursor_left(n).saved_cursor == g.saved_cursor,
        g.carriage_return().saved_cursor == g.saved_cursor,
        g.linefeed().saved_cursor == g.saved_cursor,
        g.erase_display(mode).saved_cursor == g.saved_cursor,
        g.erase_row(mode).saved_cursor == g.saved_cursor,
        g.erase_chars(n).saved_cursor == g.saved_cursor,
        g.clear().saved_cursor == g.saved_cursor,
        g.write_char(c, width).saved_cursor == g.saved_cursor,
        g.reverse_index().saved_cursor == g.saved_cursor,
        g.insert_lines(n).saved_cursor == g.saved_cursor,
        g.delete_lines(n).saved_cursor == g.saved_cursor,
        g.scroll(lines).saved_cursor == g.saved_cursor,
        g.resize(rows, cols).saved_cursor == g.saved_cursor,
        g.restore_cursor().saved_cursor == g.saved_cursor,
{
}

/// Bringing the cursor back gives the cursor last saved, clamped to the screen, and
/// changes no cell: whatever operations ran since the save, as long as they kept the
/// saved cursor (all but saving again do).
pub proof fn law_restore_saved_cursor(saved: GridView, later: GridView)
    requires
        later.saved_cursor == saved.save_cursor().saved_cursor,
    ensures
        later.restore_cursor().cursor.point == (Point {
            row: min(saved.cursor.point.row as int, later.rows - 1) as usize,
            col: min(saved.cursor.point.col as int, later.cols - 1) as usize,
        }),
        later.restore_cursor().cursor.template == saved.cursor.template,
        later.restore_cursor().cursor.pending_wrap == saved.cursor.pending_wrap,
        later.restore_cursor().lines == later.lines,
{
}

/// The buffer index of a line of the view maps back to that line of the view, and a
/// buffer line lies above the view exactly when its view line is negative.
pub proof fn law_viewport_buffer_roundtrip(g: GridView, row: int)
    ensures
        g.buffer_to_viewport(g.viewport_to_buffer(row)) == row,
        g.viewport_to_buffer(g.buffer_to_viewport(row)) == row,
        g.buffer_to_viewport(row) < 0 <==> row < g.viewport_to_buffer(0),
{
}

/// Scrolling keeps the view between the bottom and the oldest scrollback line, and
/// keeps the grid well-formed.
pub proof fn law_scroll_bounded(g: GridView, lines: int)
    requires
        g.wf(),
    ensures
        0 <= g.scroll(lines).viewport_offset <= g.scroll(lines).screen_start(),
        g.scroll(lines).lines == g.lines,
        g.scroll(lines).wf(),
{
    lemma_wf_same_lines(g, g.scroll(lines));
}

/// Erasing below the cursor and then above it erases the whole screen.
pub proof fn law_erase_below_then_above(g: GridView)
    requires
        g.wf(),
    ensures
        g.erase_display(0).erase_display(1) == g.erase_display(2),
{
    let row = g.cursor.point.row as int;
    let col = g.cursor.point.col as int;
    let cell = erased_cell(g.cursor.template);
    lemma_fill_union(
        g,
        |r: int, c: int| (r == row && c >= col) || r > row,
        |r: int, c: int| (r == row && c <= col) || r < row,
        |r: int, c: int| true,
        cell,
    );
}

/// Erasing never changes the scrollback, the size, the view or the cursor.
pub proof fn law_erase_keeps_scrollback(g: GridView, mode: nat, i: int)
    requires
        g.wf(),
        0 <= i < g.screen_start(),
    ensures
        g.erase_display(mode).lines[i] == g.lines[i],
        g.erase_row(mode).lines[i] == g.lines[i],
        g.erase_display(mode).lines.len() == g.lines.len(),
        g.erase_display(mode).cursor == g.cursor,
        g.erase_display(mode).viewport_offset == g.viewport_offset,
{
}

/// A line feed on the bottom line keeps the scrollback within its limit once it is
/// within it, and never shrinks the buffer below the screen.
pub proof fn law_linefeed_scrollback_limit(g: GridView)
    requires
        g.wf(),
        g.lines.len() <= g.rows + g.max_scrollback,
    ensures
        g.linefeed().lines.len() <= g.rows + g.max_scrollback,
        g.linefeed().lines.len() >= g.lines.len(),
        g.linefeed().wf(),
{
    if g.cursor.point.row == g.rows - 1 {
        lemma_add_row_wf(g);
        lemma_wf_same_lines(g.add_row(), g.linefeed());
    } else {
        lemma_wf_same_lines(g, g.linefeed());
    }
}

/// Inserting or deleting lines, and reverse index, keep the number of buffer lines
/// and the lines above the cursor.
pub proof fn law_line_edits_keep_length(g: GridView, n: nat, i: int)
    requires
        g.wf(),
        0 <= i < g.screen_start() + g.cursor.point.row,
    ensures
        g.insert_lines(n).lines.len() == g.lines.len(),
        g.delete_lines(n).lines.len() == g.lines.len(),
        g.reverse_index().lines.len() == g.lines.len(),
        g.insert_lines(n).lines[i] == g.lines[i],
        g.delete_lines(n).lines[i] == g.lines[i],
{
}

/// Resizing to the current size changes nothing but dropping a pending wrap.
pub proof fn law_resize_same_size(g: GridView)
    requires
        g.wf(),
    ensures
        g.resize(g.rows, g.cols) == (GridView { cursor: CursorState { pending_wrap: false, ..g.cursor }, ..g }),
{
}

/// Resizing gives a screen of the size asked for (at least one line and one column),
/// and keeps the view within the scrollback as long as the scrollback is within its
/// limit.
pub proof fn law_resize_keeps_view(g: GridView, rows: nat, cols: nat)
    requires
        g.wf(),
        g.viewport_offset <= g.screen_start(),
        g.lines.len() <= g.rows + g.max_scrollback,
    ensures
        g.resize(rows, cols).rows == max(rows as int, 1),
        g.resize(rows, cols).cols == max(cols as int, 1),
        g.resize(rows, cols).viewport_offset == g.viewport_offset,
        g.resize(rows, cols).viewport_offset <= g.resize(rows, cols).screen_start(),
{
    let r = max(rows as int, 1) as nat;
    let a = g.resize_rows(r);
    if g.rows < r {
        let k = (r - g.rows) as nat;
        let h = GridView { rows: r, ..g };
        assert(h.add_rows(k).lines.len() == g.lines.len() + k);
    }
    assert(a.resize_cols(max(cols as int, 1) as nat).lines.len() == a.lines.len());
}

/// Writing a printable character of width 1 away from the last column puts it, in
/// the template's colours and attributes, under the cursor and moves the cursor one
/// column right, onto a cell it leaves as it was, when no wrap is pending and no wide
/// character is cut.
pub proof fn law_write_narrow_char(g: GridView, c: char)
    requires
        g.wf(),
        !g.cursor.pending_wrap,
        g.cursor.point.col + 1 < g.cols,
        g.cursor_cell().flags.bits & (CellFlags::WIDE_CHAR | CellFlags::WIDE_CHAR_SPACER) == 0,
    ensures
        g.write_char(c, 1).cursor_cell() == g.screen_line(g.cursor.point.row as int)[g.cursor.point.col + 1],
        g.write_char(c, 1).screen_line(g.cursor.point.row as int)[g.cursor.point.col as int] == (Cell {
            c: c,
            ..g.cursor.template
        }),
        g.write_char(c, 1).cursor.point == (Point { row: g.cursor.point.row, col: (g.cursor.point.col + 1) as usize }),
        g.write_char(c, 1).viewport_offset == 0,
{
    let f = g.cursor_cell().flags.bits;
    assert(f & CellFlags::WIDE_CHAR != CellFlags::WIDE_CHAR) by (bit_vector)
        requires
            f & (0x100u16 | 0x200u16) == 0,
    ;
    assert(f & CellFlags::WIDE_CHAR_SPACER != CellFlags::WIDE_CHAR_SPACER) by (bit_vector)
        requires
            f & (0x100u16 | 0x200u16) == 0,
    ;
    let g0 = GridView { viewport_offset: 0, ..g };
    assert(g0.clear_wide() == g0);
    assert(g.screen_line(g.cursor.point.row as int).len() == g.cols);
}


/// Erasing the whole display leaves every screen cell blank on the template's background.
pub proof fn law_erase_display_all(g: GridView, r: int, c: int)
    requires
        g.wf(),
        0 <= r < g.rows,
        0 <= c < g.cols,
    ensures
        g.erase_display(2).screen_line(r)[c] == erased_cell(g.cursor.template),
        g.clear().screen_line(r)[c] == default_cell(),
{
    assert(g.screen_line(r).len() == g.cols);
}

/// The text of one whole buffer line is its characters followed by a newline.
pub proof fn law_text_of_line(lines: Seq<Seq<Cell>>, r: usize)
    requires
        r < lines.len(),
        lines[r as int].len() <= usize::MAX,
    ensures
        text_between(lines, Point { row: r, col: 0 }, Point { row: r, col: usize::MAX }) == cells_text(
            lines[r as int],
            0,
            lines[r as int].len() as int,
        ) + seq!['\n'],
{
    let begin = Point { row: r, col: 0 };
    let end = Point { row: r, col: usize::MAX };
    assert(text_from(lines, r + 1, begin, end) == Seq::<char>::empty());
    assert(text_between(lines, begin, end) =~= cells_text(lines[r as int], 0, lines[r as int].len() as int) + seq![
        '\n',
    ]);
}

} // verus!
