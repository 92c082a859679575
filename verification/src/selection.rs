use vstd::prelude::*;

use crate::cell::{point_lt, Cell, Point};
use crate::grid::{max, min, text_between, Grid};

verus! {

/// What a drag selects: characters, whole words, or whole lines.
#[derive(Clone, Copy, Debug, PartialEq, Eq, Structural)]
pub enum SelectionKind {
    Character,
    Word,
    Line,
}

impl Default for SelectionKind {
    fn default() -> (r: SelectionKind)
        ensures
            r == SelectionKind::Character,
    {
        SelectionKind::Character
    }
}

/// The kind that a repeated click selects: characters, then words, then lines, then
/// characters again.
pub open spec fn next_kind_of(k: SelectionKind) -> SelectionKind {
    match k {
        SelectionKind::Character => SelectionKind::Word,
        SelectionKind::Word => SelectionKind::Line,
        SelectionKind::Line => SelectionKind::Character,
    }
}

impl SelectionKind {
    /// The kind that one more click in quick succession selects.
    pub fn next(self) -> (r: SelectionKind)
        ensures
            r == next_kind_of(self),
    {
        match self {
            SelectionKind::Character => SelectionKind::Word,
            SelectionKind::Word => SelectionKind::Line,
            SelectionKind::Line => SelectionKind::Character,
        }
    }
}

/// A selection between two buffer positions: where the drag started and where it is.
#[derive(Clone, Copy, Debug, PartialEq, Eq, Structural)]
pub struct Selection {
    pub anchor: Point,
    pub end: Point,
    pub kind: SelectionKind,
}

impl Default for Selection {
    fn default() -> (r: Selection)
        ensures
            r == (Selection {
                anchor: Point { row: 0, col: 0 },
                end: Point { row: 0, col: 0 },
                kind: SelectionKind::Character,
            }),
    {
        Selection {
            anchor: Point { row: 0, col: 0 },
            end: Point { row: 0, col: 0 },
            kind: SelectionKind::Character,
        }
    }
}

/// Whether a cell belongs to a word: it holds something other than a space.
pub open spec fn is_word_cell(c: Cell) -> bool {
    c.c != ' '
}

/// The first column of the run of word cells that ends at `col`.
pub open spec fn word_left(line: Seq<Cell>, col: int) -> int
    decreases col,
{
    if col > 0 && col - 1 < line.len() && is_word_cell(line[col - 1]) {
        word_left(line, col - 1)
    } else {
        col
    }
}

/// The last column of the run of word cells that starts at `col`.
pub open spec fn word_right(line: Seq<Cell>, col: int) -> int
    decreases line.len() - col,
{
    if 0 <= col && col + 1 < line.len() && is_word_cell(line[col + 1]) {
        word_right(line, col + 1)
    } else {
        col
    }
}

/// The columns (first and last) of the word at a buffer position; just its column
/// when there is no word there.
pub open spec fn word_range(lines: Seq<Seq<Cell>>, p: Point) -> (int, int) {
    if p.row < lines.len() && p.col < lines[p.row as int].len() && is_word_cell(lines[p.row as int][p.col as int]) {
        (word_left(lines[p.row as int], p.col as int), word_right(lines[p.row as int], p.col as int))
    } else {
        (p.col as int, p.col as int)
    }
}

/// The first and last positions that a selection covers: its two ends in order,
/// widened to whole words or whole lines by its kind.
pub open spec fn selection_span(lines: Seq<Seq<Cell>>, s: Selection) -> (Point, Point) {
    let (l, r) = if point_lt(s.anchor, s.end) {
        (s.anchor, s.end)
    } else {
        (s.end, s.anchor)
    };
    match s.kind {
        SelectionKind::Character => (l, r),
        SelectionKind::Word => (
            Point { row: l.row, col: min(l.col as int, word_range(lines, l).0) as usize },
            Point { row: r.row, col: max(r.col as int, word_range(lines, r).1) as usize },
        ),
        SelectionKind::Line => (
            Point { row: l.row, col: 0 },
            Point { row: r.row, col: max(r.col as int, Grid::MAX_COLS as int) as usize },
        ),
    }
}

impl Grid {
    /// The columns (first and last) of the word at buffer position `p`; just its
    /// column when there is no word there.
    pub fn get_word_range(&self, p: Point) -> (r: (usize, usize))
        ensures
            (r.0 as int, r.1 as int) == word_range(self@.lines, p),
    {
        if p.row >= self.buffer_len() {
            return (p.col, p.col);
        }
        let line = self.line_cells(p.row);
        if p.col < line.len() && line[p.col].c != ' ' {
            let ghost l = line@;
            let mut left = p.col;
            while left > 0 && line[left - 1].c != ' '
                invariant
                    l == line@,
                    left <= p.col < l.len(),
                    word_left(l, left as int) == word_left(l, p.col as int),
                decreases left,
            {
                left = left - 1;
            }
            let mut right = p.col;
            while right < line.len() - 1 && line[right + 1].c != ' '
                invariant
                    l == line@,
                    p.col <= right < l.len(),
                    word_right(l, right as int) == word_right(l, p.col as int),
                decreases l.len() - right,
            {
                right = right + 1;
            }
            (left, right)
        } else {
            (p.col, p.col)
        }
    }

    /// The first and last positions that a selection covers.
    pub fn selection_range(&self, selection: &Selection) -> (r: (Point, Point))
        ensures
            r == selection_span(self@.lines, *selection),
    {
        let (l, r) = if selection.anchor.before(&selection.end) {
            (selection.anchor, selection.end)
        } else {
            (selection.end, selection.anchor)
        };
        match selection.kind {
            SelectionKind::Character => (l, r),
            SelectionKind::Word => {
                let (lw, _) = self.get_word_range(l);
                let (_, rw) = self.get_word_range(r);
                (
                    Point { row: l.row, col: if lw < l.col { lw } else { l.col } },
                    Point { row: r.row, col: if rw > r.col { rw } else { r.col } },
                )
            },
            SelectionKind::Line => (
                Point { row: l.row, col: 0 },
                Point { row: r.row, col: if r.col > Grid::MAX_COLS { r.col } else { Grid::MAX_COLS } },
            ),
        }
    }

    /// The text that a selection covers.
    pub fn selection_text(&self, selection: &Selection) -> (r: String)
        ensures
            r@ == text_between(
                self@.lines,
                selection_span(self@.lines, *selection).0,
                selection_span(self@.lines, *selection).1,
            ),
    {
        let (begin, end) = self.selection_range(selection);
        self.get_text(begin, end)
    }

    /// The screen cell under the mouse pointer, from the cell its position falls in
    /// (`row`, `col`), kept on the screen.
    pub fn cursor_cell(&self, row: usize, col: usize) -> (r: Point)
        requires
            self.wf(),
        ensures
            r.row == min(row as int, self@.rows - 1),
            r.col == min(col as int, self@.cols - 1),
    {
        let last_row = self.grid_rows() - 1;
        let last_col = self.grid_cols() - 1;
        Point { row: if row < last_row { row } else { last_row }, col: if col < last_col { col } else { last_col } }
    }

    /// The cell boundary nearest the mouse pointer: `col` is the boundary its
    /// position rounds to, which may be the one after the last column.
    pub fn cursor_boundary_cell(&self, row: usize, col: usize) -> (r: Point)
        requires
            self.wf(),
        ensures
            r.row == min(row as int, self@.rows - 1),
            r.col == min(col as int, self@.cols as int),
    {
        let last_row = self.grid_rows() - 1;
        let cols = self.grid_cols();
        Point { row: if row < last_row { row } else { last_row }, col: if col < cols { col } else { cols } }
    }
}


/// A selection's span never ends before it starts, and a character selection spans
/// exactly its two ends.
pub proof fn law_selection_span_ordered(lines: Seq<Seq<Cell>>, s: Selection)
    ensures
        selection_span(lines, s).0.row <= selection_span(lines, s).1.row,
        s.kind == SelectionKind::Character ==> !point_lt(selection_span(lines, s).1, selection_span(lines, s).0),
        s.kind == SelectionKind::Character ==> (selection_span(lines, s) == (s.anchor, s.end) || selection_span(
            lines,
            s,
        ) == (s.end, s.anchor)),
{
}

/// Three clicks in quick succession come back to the first kind of selection.
pub proof fn law_click_cycle(k: SelectionKind)
    ensures
        next_kind_of(next_kind_of(next_kind_of(k))) == k,
        next_kind_of(k) != k,
{
}

/// A word's columns surround the position inside it.
pub proof fn law_word_range_contains(lines: Seq<Seq<Cell>>, p: Point)
    ensures
        word_range(lines, p).0 <= p.col <= word_range(lines, p).1,
{
    if p.row < lines.len() && p.col < lines[p.row as int].len() && is_word_cell(lines[p.row as int][p.col as int]) {
        lemma_word_left_le(lines[p.row as int], p.col as int);
        lemma_word_right_ge(lines[p.row as int], p.col as int);
    }
}

proof fn lemma_word_left_le(line: Seq<Cell>, col: int)
    ensures
        word_left(line, col) <= col,
    decreases col,
{
    if col > 0 && col - 1 < line.len() && is_word_cell(line[col - 1]) {
        lemma_word_left_le(line, col - 1);
    }
}

proof fn lemma_word_right_ge(line: Seq<Cell>, col: int)
    ensures
        word_right(line, col) >= col,
    decreases line.len() - col,
{
    if 0 <= col && col + 1 < line.len() && is_word_cell(line[col + 1]) {
        lemma_word_right_ge(line, col + 1);
    }
}

} // verus!
