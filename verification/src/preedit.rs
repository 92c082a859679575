use vstd::prelude::*;

use vstd::string::StringSliceAdditionalSpecFns;

use crate::cell::Point;
use crate::grid::max;
use crate::text::{char_width, unicode_char_width};

verus! {

/// One cell of the input method preview: its screen position, the character shown
/// there (for the right half of a wide character, that character again), and whether
/// it shows in swapped colours.
#[derive(Clone, Copy, Debug, PartialEq, Eq, Structural)]
pub struct PreeditCell {
    pub row: usize,
    pub col: usize,
    pub c: char,
    pub inverted: bool,
}

/// The laid-out preview: the cells that show a glyph, the cells that show none (empty
/// glyphs and right halves of wide characters), the bar cursor inside the preview, and
/// the position after the last character placed.
#[derive(Clone, Debug)]
pub struct PreeditLayout {
    pub glyphs: Vec<PreeditCell>,
    pub empties: Vec<PreeditCell>,
    pub bar_cursor: Option<Point>,
    pub end: Point,
}

/// The most cells the preview may take.
pub const PREEDIT_CELL_LIMIT: usize = 256;

/// The state of the layout while it runs. `stopped` ends the current part of the text;
/// `fault` marks a character wider than two columns, which has no layout.
pub struct PreeditState {
    pub row: int,
    pub col: int,
    pub glyphs: Seq<PreeditCell>,
    pub empties: Seq<PreeditCell>,
    pub bar: Option<Point>,
    pub stopped: bool,
    pub fault: bool,
}

/// The columns a preview character takes: its display width, 0 for a control character.
pub open spec fn preedit_width(c: char) -> int {
    match unicode_char_width(c) {
        Some(w) => w as int,
        None => 0,
    }
}

/// One character placed: characters of no width are skipped; one that does not fit on
/// the line goes to the start of the next, and ends its part of the text on the last
/// line; a wide one adds an empty cell for its right half. When the cells go over the
/// limit, the last glyph cell (and the right half) are taken back and the part ends.
pub open spec fn preedit_step(
    s: PreeditState,
    c: char,
    empty: bool,
    inverted: bool,
    rows: int,
    cols: int,
) -> PreeditState {
    let w = preedit_width(c);
    if s.stopped || s.fault || w == 0 {
        s
    } else if w > 2 {
        PreeditState { fault: true, ..s }
    } else if cols < s.col + w && s.row == rows - 1 {
        PreeditState { stopped: true, ..s }
    } else {
        let wrap = cols < s.col + w;
        let row = if wrap {
            s.row + 1
        } else {
            s.row
        };
        let col = if wrap {
            0
        } else {
            s.col
        };
        let cell = PreeditCell { row: row as usize, col: col as usize, c: c, inverted: inverted };
        let glyphs = if empty {
            s.glyphs
        } else {
            s.glyphs.push(cell)
        };
        let e1 = if empty {
            s.empties.push(cell)
        } else {
            s.empties
        };
        let empties = if w == 2 {
            e1.push(PreeditCell { col: (col + 1) as usize, ..cell })
        } else {
            e1
        };
        if PREEDIT_CELL_LIMIT < glyphs.len() + empties.len() {
            PreeditState {
                row: row,
                col: col + w,
                glyphs: if glyphs.len() > 0 {
                    glyphs.drop_last()
                } else {
                    glyphs
                },
                empties: if w == 2 {
                    empties.drop_last()
                } else {
                    empties
                },
                bar: s.bar,
                stopped: true,
                fault: false,
            }
        } else {
            PreeditState { row: row, col: col + w, glyphs: glyphs, empties: empties, bar: s.bar, stopped: false, fault: false }
        }
    }
}

/// The first `k` characters of a part of the text placed.
pub open spec fn preedit_run(
    s: PreeditState,
    chars: Seq<char>,
    empty: Seq<bool>,
    inverted: bool,
    rows: int,
    cols: int,
    k: int,
) -> PreeditState
    decreases k,
{
    if k <= 0 {
        s
    } else {
        preedit_step(
            preedit_run(s, chars, empty, inverted, rows, cols, k - 1),
            chars[k - 1],
            empty[k - 1],
            inverted,
            rows,
            cols,
        )
    }
}

/// One part of the text placed; an empty part marks where the bar cursor goes.
pub open spec fn preedit_segment(
    s: PreeditState,
    chars: Seq<char>,
    empty: Seq<bool>,
    inverted: bool,
    rows: int,
    cols: int,
) -> PreeditState {
    let s0 = PreeditState {
        stopped: false,
        bar: if chars.len() == 0 {
            Some(Point { row: s.row as usize, col: s.col as usize })
        } else {
            s.bar
        },
        ..s
    };
    preedit_run(s0, chars, empty, inverted, rows, cols, chars.len() as int)
}

/// The parts of the preview text: none for an empty text; with a cursor (byte offsets
/// `x` and `y`), the text before it, inside it and after it; else the whole text.
pub open spec fn preedit_parts(text: Seq<char>, cursor: Option<(usize, usize)>) -> Seq<Seq<char>> {
    let b = vstd::utf8::encode_utf8(text);
    if text.len() == 0 {
        seq![]
    } else {
        match cursor {
            Some((x, y)) => seq![
                vstd::utf8::decode_utf8(b.subrange(0, x as int)),
                vstd::utf8::decode_utf8(b.subrange(x as int, y as int)),
                vstd::utf8::decode_utf8(b.subrange(y as int, b.len() as int)),
            ],
            None => seq![text],
        }
    }
}

/// The layout of the preview text `text` with input method cursor `cursor`, starting
/// at `start` on a screen of `rows` lines and `cols` columns; `empty[i]` tells whether
/// character `i` has an empty glyph. The parts are placed in turn, the middle one in
/// swapped colours.
pub open spec fn preedit_layout(
    text: Seq<char>,
    cursor: Option<(usize, usize)>,
    empty: Seq<bool>,
    start: Point,
    rows: int,
    cols: int,
) -> PreeditState {
    let parts = preedit_parts(text, cursor);
    let s0 = PreeditState {
        row: start.row as int,
        col: start.col as int,
        glyphs: seq![],
        empties: seq![],
        bar: None,
        stopped: false,
        fault: false,
    };
    if parts.len() == 0 {
        s0
    } else if parts.len() == 1 {
        preedit_segment(s0, parts[0], empty, false, rows, cols)
    } else {
        let n0 = parts[0].len() as int;
        let n1 = parts[1].len() as int;
        let s1 = preedit_segment(s0, parts[0], empty.subrange(0, n0), false, rows, cols);
        let s2 = preedit_segment(s1, parts[1], empty.subrange(n0, n0 + n1), true, rows, cols);
        preedit_segment(s2, parts[2], empty.subrange(n0 + n1, empty.len() as int), false, rows, cols)
    }
}

/// Whether the input method cursor can cut the text: two byte offsets in order, each at
/// a character boundary.
pub open spec fn preedit_cursor_ok(text: &str, cursor: Option<(usize, usize)>) -> bool {
    text@.len() > 0 ==> match cursor {
        Some((x, y)) => x <= y <= text.spec_bytes().len() && vstd::utf8::is_char_boundary(
            text.spec_bytes(),
            x as int,
        ) && vstd::utf8::is_char_boundary(text.spec_bytes(), y as int),
        None => true,
    }
}

impl PreeditLayout {
    /// The layout state that `self` holds.
    pub open spec fn state(&self, stopped: bool, fault: bool) -> PreeditState {
        PreeditState {
            row: self.end.row as int,
            col: self.end.col as int,
            glyphs: self.glyphs@,
            empties: self.empties@,
            bar: self.bar_cursor,
            stopped: stopped,
            fault: fault,
        }
    }
}

/// The bounds that the layout keeps: the position on the screen's lines and at most two
/// columns past the width.
pub open spec fn preedit_bounds(s: PreeditState, rows: int, cols: int) -> bool {
    &&& 0 <= s.row < rows
    &&& 0 <= s.col <= max(cols, 2)
}

proof fn lemma_step_bounds(s: PreeditState, c: char, empty: bool, inverted: bool, rows: int, cols: int)
    requires
        preedit_bounds(s, rows, cols),
        0 <= cols,
    ensures
        preedit_bounds(preedit_step(s, c, empty, inverted, rows, cols), rows, cols),
        preedit_step(s, c, empty, inverted, rows, cols).bar == s.bar,
        s.stopped ==> preedit_step(s, c, empty, inverted, rows, cols) == s,
        s.fault ==> preedit_step(s, c, empty, inverted, rows, cols) == s,
        preedit_step(s, c, empty, inverted, rows, cols).fault ==> preedit_step(s, c, empty, inverted, rows, cols) == (PreeditState { fault: true, ..s }) || s.fault,
{
}

/// Places one character.
fn place_char(
    l: &mut PreeditLayout,
    c: char,
    empty: bool,
    inverted: bool,
    rows: usize,
    cols: usize,
) -> (r: (bool, bool))
    requires
        preedit_bounds(old(l).state(false, false), rows as int, cols as int),
        cols + 4 <= usize::MAX,
    ensures
        final(l).state(r.0, r.1) == preedit_step(old(l).state(false, false), c, empty, inverted, rows as int, cols as int),
{
    let w = match char_width(c) {
        Some(w) => w,
        None => 0,
    };
    if w == 0 {
        return (false, false);
    }
    if w > 2 {
        return (false, true);
    }
    let wrap = cols < l.end.col + w;
    if wrap && l.end.row == rows - 1 {
        return (true, false);
    }
    if wrap {
        l.end = Point { row: l.end.row + 1, col: 0 };
    }
    let cell = PreeditCell { row: l.end.row, col: l.end.col, c: c, inverted: inverted };
    if empty {
        l.empties.push(cell);
    } else {
        l.glyphs.push(cell);
    }
    if w == 2 {
        l.empties.push(PreeditCell { col: l.end.col + 1, ..cell });
    }
    l.end = Point { row: l.end.row, col: l.end.col + w };
    let g = l.glyphs.len();
    let e = l.empties.len();
    if g > PREEDIT_CELL_LIMIT || e > PREEDIT_CELL_LIMIT - g {
        if g > 0 {
            l.glyphs.pop();
        }
        if w == 2 {
            l.empties.pop();
        }
        return (true, false);
    }
    (false, false)
}

/// Places the characters `lo..hi` of `chars`, one part of the text.
fn place_part(
    l: &mut PreeditLayout,
    fault: &mut bool,
    chars: &Vec<char>,
    empty: &[bool],
    lo: usize,
    hi: usize,
    inverted: bool,
    rows: usize,
    cols: usize,
)
    requires
        lo <= hi <= chars@.len(),
        chars@.len() == empty@.len(),
        preedit_bounds(old(l).state(false, *old(fault)), rows as int, cols as int),
        cols + 4 <= usize::MAX,
    ensures
        final(l).state(false, *final(fault)) == (PreeditState {
            stopped: false,
            ..preedit_segment(
                old(l).state(false, *old(fault)),
                chars@.subrange(lo as int, hi as int),
                empty@.subrange(lo as int, hi as int),
                inverted,
                rows as int,
                cols as int,
            )
        }),
        preedit_bounds(final(l).state(false, *final(fault)), rows as int, cols as int),
{
    let ghost part = chars@.subrange(lo as int, hi as int);
    let ghost flags = empty@.subrange(lo as int, hi as int);
    let ghost s0 = PreeditState {
        stopped: false,
        bar: if part.len() == 0 {
            Some(Point { row: old(l).end.row, col: old(l).end.col })
        } else {
            old(l).bar_cursor
        },
        ..old(l).state(false, *old(fault))
    };
    if lo == hi {
        l.bar_cursor = Some(l.end);
    }
    let mut stopped = false;
    let mut i = lo;
    while i < hi
        invariant
            lo <= i <= hi <= chars@.len(),
            chars@.len() == empty@.len(),
            part == chars@.subrange(lo as int, hi as int),
            flags == empty@.subrange(lo as int, hi as int),
            cols + 4 <= usize::MAX,
            l.state(stopped, *fault) == preedit_run(s0, part, flags, inverted, rows as int, cols as int, i - lo),
            preedit_bounds(l.state(stopped, *fault), rows as int, cols as int),
        decreases hi - i,
    {
        let ghost before = l.state(stopped, *fault);
        proof {
            assert(part[i - lo] == chars@[i as int]);
            assert(flags[i - lo] == empty@[i as int]);
            lemma_step_bounds(before, chars@[i as int], empty@[i as int], inverted, rows as int, cols as int);
        }
        if !stopped && !*fault {
            let (s, f) = place_char(l, chars[i], empty[i], inverted, rows, cols);
            stopped = s;
            *fault = f;
        }
        i = i + 1;
    }
}

/// Lays out the preview text `text` with input method cursor `cursor` (byte offsets),
/// starting at `start` on a screen of `rows` lines and `cols` columns; `empty[i]`
/// tells whether character `i` has an empty glyph. `None` when a character is wider
/// than two columns.
pub fn layout_preedit(
    text: &str,
    cursor: Option<(usize, usize)>,
    empty: &[bool],
    start: Point,
    rows: usize,
    cols: usize,
) -> (r: Option<PreeditLayout>)
    requires
        empty@.len() == text@.len(),
        start.row < rows,
        start.col <= cols,
        cols + 4 <= usize::MAX,
        preedit_cursor_ok(text, cursor),
    ensures
        match r {
            None => preedit_layout(text@, cursor, empty@, start, rows as int, cols as int).fault,
            Some(l) => {
                let s = preedit_layout(text@, cursor, empty@, start, rows as int, cols as int);
                &&& !s.fault
                &&& l.glyphs@ == s.glyphs
                &&& l.empties@ == s.empties
                &&& l.bar_cursor == s.bar
                &&& l.end.row == s.row
                &&& l.end.col == s.col
            },
        },
{
    broadcast use vstd::utf8::group_utf8_lib;

    let mut l = PreeditLayout { glyphs: Vec::new(), empties: Vec::new(), bar_cursor: None, end: start };
    let mut fault = false;
    let chars = chars_of(text);
    assert(l.glyphs@ =~= Seq::<PreeditCell>::empty());
    assert(l.empties@ =~= Seq::<PreeditCell>::empty());
    let n = chars.len();
    if n == 0 {
        return Some(l);
    }
    match cursor {
        None => {
            assert(chars@.subrange(0, n as int) =~= text@);
            assert(empty@.subrange(0, n as int) =~= empty@);
            place_part(&mut l, &mut fault, &chars, empty, 0, n, false, rows, cols);
        },
        Some((x, y)) => {
            let (n0, n1) = part_lengths(text, x, y);
            place_part(&mut l, &mut fault, &chars, empty, 0, n0, false, rows, cols);
            place_part(&mut l, &mut fault, &chars, empty, n0, n0 + n1, true, rows, cols);
            place_part(&mut l, &mut fault, &chars, empty, n0 + n1, n, false, rows, cols);
        },
    }
    if fault {
        None
    } else {
        Some(l)
    }
}

/// The characters of a text.
fn chars_of(s: &str) -> (v: Vec<char>)
    ensures
        v@ == s@,
{
    let mut v: Vec<char> = Vec::new();
    for c in it: s.chars()
        invariant
            it.seq() == s@,
            v@ == s@.take(it.index() as int),
    {
        v.push(c);
    }
    assert(v@ =~= s@);
    v
}

/// The number of characters of a text.
fn char_count(s: &str) -> (n: usize)
    ensures
        n == s@.len(),
{
    chars_of(s).len()
}

/// The numbers of characters before the input method cursor and inside it.
fn part_lengths(text: &str, x: usize, y: usize) -> (r: (usize, usize))
    requires
        x <= y <= text.spec_bytes().len(),
        vstd::utf8::is_char_boundary(text.spec_bytes(), x as int),
        vstd::utf8::is_char_boundary(text.spec_bytes(), y as int),
    ensures
        r.0 == preedit_parts(text@, Some((x, y)))[0].len() || text@.len() == 0,
        r.0 + r.1 <= text@.len(),
        text@.len() > 0 ==> {
            let parts = preedit_parts(text@, Some((x, y)));
            &&& parts[0] == text@.subrange(0, r.0 as int)
            &&& parts[1] == text@.subrange(r.0 as int, r.0 + r.1)
            &&& parts[2] == text@.subrange(r.0 + r.1, text@.len() as int)
        },
{
    broadcast use vstd::utf8::group_utf8_lib;

    let ghost b = text.spec_bytes();
    let (a, rest) = text.split_at(x);
    proof {
        vstd::utf8::decode_utf8_split(b, x as int);
        assert(rest.spec_bytes() =~= b.subrange(x as int, b.len() as int));
        if y < b.len() {
            vstd::utf8::is_char_boundary_iff_not_is_continuation_byte(b, y as int);
            vstd::utf8::is_char_boundary_iff_not_is_continuation_byte(rest.spec_bytes(), y - x);
            assert(rest.spec_bytes()[y - x] == b[y as int]);
        } else {
            vstd::utf8::is_char_boundary_start_end_of_seq(rest.spec_bytes());
        }
    }
    let (m, c) = rest.split_at(y - x);
    proof {
        let rb = rest.spec_bytes();
        vstd::utf8::decode_utf8_split(rb, (y - x) as int);
        assert(m.spec_bytes() =~= b.subrange(x as int, y as int));
        assert(c.spec_bytes() =~= b.subrange(y as int, b.len() as int));
        assert(a@ == vstd::utf8::decode_utf8(b.subrange(0, x as int)));
        assert(text@ == a@ + rest@);
        assert(rest@ == m@ + c@);
    }
    let n0 = char_count(a);
    let n1 = char_count(m);
    proof {
        assert(text@.subrange(0, n0 as int) =~= a@);
        assert(text@.subrange(n0 as int, n0 + n1) =~= m@);
        assert(text@.subrange(n0 + n1, text@.len() as int) =~= c@);
    }
    (n0, n1)
}

} // verus!

verus! {

/// The number of cells a layout state takes.
pub open spec fn preedit_cells(s: PreeditState) -> int {
    (s.glyphs.len() + s.empties.len()) as int
}

proof fn lemma_step_within_limit(s: PreeditState, c: char, inverted: bool, rows: int, cols: int)
    requires
        preedit_cells(s) <= PREEDIT_CELL_LIMIT,
    ensures
        preedit_cells(preedit_step(s, c, false, inverted, rows, cols)) <= PREEDIT_CELL_LIMIT,
{
}

proof fn lemma_run_within_limit(
    s: PreeditState,
    chars: Seq<char>,
    empty: Seq<bool>,
    inverted: bool,
    rows: int,
    cols: int,
    k: int,
)
    requires
        preedit_cells(s) <= PREEDIT_CELL_LIMIT,
        k <= empty.len(),
        forall|i: int| 0 <= i < empty.len() ==> !empty[i],
    ensures
        preedit_cells(preedit_run(s, chars, empty, inverted, rows, cols, k)) <= PREEDIT_CELL_LIMIT,
    decreases k,
{
    if k > 0 {
        lemma_run_within_limit(s, chars, empty, inverted, rows, cols, k - 1);
        lemma_step_within_limit(
            preedit_run(s, chars, empty, inverted, rows, cols, k - 1),
            chars[k - 1],
            inverted,
            rows,
            cols,
        );
    }
}

/// The three parts of a text cut at a cursor make up the text.
proof fn lemma_parts_concat(text: Seq<char>, x: usize, y: usize)
    requires
        text.len() > 0,
        x <= y <= vstd::utf8::encode_utf8(text).len(),
        vstd::utf8::is_char_boundary(vstd::utf8::encode_utf8(text), x as int),
        vstd::utf8::is_char_boundary(vstd::utf8::encode_utf8(text), y as int),
    ensures
        preedit_parts(text, Some((x, y))).len() == 3,
        preedit_parts(text, Some((x, y)))[0] + preedit_parts(text, Some((x, y)))[1] + preedit_parts(text, Some((x, y)))[2]
            == text,
{
    broadcast use vstd::utf8::group_utf8_lib;

    let b = vstd::utf8::encode_utf8(text);
    let rest = b.subrange(x as int, b.len() as int);
    vstd::utf8::decode_utf8_split(b, x as int);
    if y < b.len() {
        vstd::utf8::is_char_boundary_iff_not_is_continuation_byte(b, y as int);
        vstd::utf8::is_char_boundary_iff_not_is_continuation_byte(rest, y - x);
        assert(rest[y - x] == b[y as int]);
    } else {
        vstd::utf8::is_char_boundary_start_end_of_seq(rest);
    }
    vstd::utf8::decode_utf8_split(rest, (y - x) as int);
    assert(rest.subrange(0, (y - x) as int) =~= b.subrange(x as int, y as int));
    assert(rest.subrange((y - x) as int, rest.len() as int) =~= b.subrange(y as int, b.len() as int));
}

/// When every character of the preview has a glyph, the preview takes at most
/// `PREEDIT_CELL_LIMIT` cells.
pub proof fn law_preedit_within_limit(
    text: Seq<char>,
    cursor: Option<(usize, usize)>,
    empty: Seq<bool>,
    start: Point,
    rows: int,
    cols: int,
)
    requires
        empty.len() == text.len(),
        forall|i: int| 0 <= i < empty.len() ==> !empty[i],
        cursor matches Some((x, y)) ==> {
            let b = vstd::utf8::encode_utf8(text);
            &&& x <= y <= b.len()
            &&& vstd::utf8::is_char_boundary(b, x as int)
            &&& vstd::utf8::is_char_boundary(b, y as int)
        },
    ensures
        preedit_cells(preedit_layout(text, cursor, empty, start, rows, cols)) <= PREEDIT_CELL_LIMIT,
{
    let parts = preedit_parts(text, cursor);
    let s0 = PreeditState {
        row: start.row as int,
        col: start.col as int,
        glyphs: seq![],
        empties: seq![],
        bar: None,
        stopped: false,
        fault: false,
    };
    if parts.len() == 1 {
        let p = parts[0];
        let t0 = PreeditState { stopped: false, bar: if p.len() == 0 { Some(Point { row: s0.row as usize, col: s0.col as usize }) } else { s0.bar }, ..s0 };
        lemma_run_within_limit(t0, p, empty, false, rows, cols, p.len() as int);
    } else if parts.len() == 3 {
        let n0 = parts[0].len() as int;
        let n1 = parts[1].len() as int;
        let (x, y) = cursor.unwrap();
        lemma_parts_concat(text, x, y);
        let e0 = empty.subrange(0, n0);
        let e1 = empty.subrange(n0, n0 + n1);
        let e2 = empty.subrange(n0 + n1, empty.len() as int);
        let t0 = PreeditState { stopped: false, bar: if n0 == 0 { Some(Point { row: s0.row as usize, col: s0.col as usize }) } else { s0.bar }, ..s0 };
        lemma_run_within_limit(t0, parts[0], e0, false, rows, cols, n0);
        let s1 = preedit_segment(s0, parts[0], e0, false, rows, cols);
        let t1 = PreeditState { stopped: false, bar: if n1 == 0 { Some(Point { row: s1.row as usize, col: s1.col as usize }) } else { s1.bar }, ..s1 };
        lemma_run_within_limit(t1, parts[1], e1, true, rows, cols, n1);
        let s2 = preedit_segment(s1, parts[1], e1, true, rows, cols);
        let n2 = parts[2].len() as int;
        let t2 = PreeditState { stopped: false, bar: if n2 == 0 { Some(Point { row: s2.row as usize, col: s2.col as usize }) } else { s2.bar }, ..s2 };
        lemma_run_within_limit(t2, parts[2], e2, false, rows, cols, n2);
    }
}

} // verus!
