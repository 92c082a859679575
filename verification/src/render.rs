use vstd::prelude::*;

use crate::cell::{named_index, CellFlags, Color, Point};
use crate::grid::{min, Grid, GridView};
use crate::terminal::{style_code, CursorStyle};

verus! {

/// The opaque RGBA form of an RGB colour.
pub fn rgb_to_rgba(rgb: [u8; 3]) -> (r: [u8; 4])
    ensures
        r@ == rgb@.push(255u8),
{
    let r = [rgb[0], rgb[1], rgb[2], 255u8];
    assert(r@ =~= rgb@.push(255u8));
    r
}

/// The value of one axis of the 6×6×6 colour cube of the 256-colour palette.
pub open spec fn cube_level(v: int) -> u8 {
    if v == 0 {
        0
    } else {
        (55 + 40 * v) as u8
    }
}

/// Entry `i` of the 256-colour palette: the sixteen named colours of `palette`, then
/// the 6×6×6 colour cube, then 24 shades of grey.
pub open spec fn indexed_rgb(i: u8, palette: Seq<[u8; 3]>) -> Seq<u8> {
    if i < 16 {
        palette[i as int]@
    } else if i < 232 {
        let v = i - 16;
        seq![cube_level(v / 36), cube_level((v / 6) % 6), cube_level(v % 6)]
    } else {
        let g = (8 + 10 * (i - 232)) as u8;
        seq![g, g, g]
    }
}

/// The RGB value of a cell colour under `palette` (the named colours in palette order).
pub open spec fn color_rgb(c: Color, palette: Seq<[u8; 3]>) -> Seq<u8> {
    match c {
        Color::Named(n) => palette[named_index(n) as int]@,
        Color::Indexed(i) => indexed_rgb(i, palette),
        Color::Rgb(r, g, b) => seq![r, g, b],
    }
}

/// The value of one axis of the colour cube.
fn cube_value(v: u8) -> (r: u8)
    requires
        v < 6,
    ensures
        r == cube_level(v as int),
{
    if v == 0 {
        0
    } else {
        55 + 40 * v
    }
}

impl Color {
    /// The opaque RGBA value of this colour under `palette`.
    pub fn color_to_rgba(&self, palette: &[[u8; 3]; 18]) -> (r: [u8; 4])
        ensures
            r@ == color_rgb(*self, palette@).push(255u8),
    {
        let rgb: [u8; 3] = match *self {
            Color::Named(n) => palette[n.index() as usize],
            Color::Indexed(i) => {
                if i < 16 {
                    palette[i as usize]
                } else if i < 232 {
                    let v = i - 16;
                    [cube_value(v / 36), cube_value((v / 6) % 6), cube_value(v % 6)]
                } else {
                    let g = 8 + 10 * (i - 232);
                    [g, g, g]
                }
            },
            Color::Rgb(r, g, b) => [r, g, b],
        };
        assert(rgb@ =~= color_rgb(*self, palette@));
        rgb_to_rgba(rgb)
    }
}

/// `n` kept between `lo` and `hi`.
pub open spec fn clamp_size(n: int, lo: int, hi: int) -> int {
    if n < lo {
        lo
    } else if n > hi {
        hi
    } else {
        n
    }
}

/// The index of a screen cell in row-major order.
pub open spec fn cell_index(p: Point, cols: int) -> int {
    p.row * cols + p.col
}

/// Where the cursor is drawn and how: the first and the past-the-end cell index it
/// covers, and its shape code. Without a preview of input method text it covers the
/// cell under the cursor (two for a wide character); with one, the bar cursor inside
/// the preview, or nothing. A bar cursor inside the preview makes the shape a bar; a
/// hidden cursor is shape 0; a bar covers one cell.
pub open spec fn cursor_uniform_of(
    g: GridView,
    style: CursorStyle,
    visible: bool,
    preedit_cells: nat,
    bar: Option<Point>,
) -> (int, int, int) {
    let (b, e) = if preedit_cells == 0 {
        let i = cell_index(g.cursor.point, g.cols as int);
        let wide = g.cursor_cell().flags.bits & CellFlags::WIDE_CHAR == CellFlags::WIDE_CHAR;
        (i, i + if wide {
            2int
        } else {
            1int
        })
    } else {
        match bar {
            Some(p) => (cell_index(p, g.cols as int), cell_index(p, g.cols as int) + 1),
            None => (0int, 0int),
        }
    };
    let s1 = if bar is Some {
        style_code(CursorStyle::Bar) as int
    } else {
        style_code(style) as int
    };
    let s2 = if !visible {
        style_code(CursorStyle::Hidden) as int
    } else {
        s1
    };
    (b, if s2 == style_code(CursorStyle::Bar) {
        b + 1
    } else {
        e
    }, s2)
}

/// A screen index at most two past `rows * cols`.
proof fn lemma_cell_index_bound(p: Point, rows: int, cols: int)
    requires
        0 <= p.row < rows <= 0xffff,
        0 <= p.col <= cols + 2,
        0 <= cols <= 0xffff,
    ensures
        0 <= cell_index(p, cols) <= rows * cols + 2,
        rows * cols <= 0xfffe0001,
{
    assert(p.row * cols <= (rows - 1) * cols) by (nonlinear_arith)
        requires
            0 <= p.row <= rows - 1,
            0 <= cols,
    ;
    assert((rows - 1) * cols + cols == rows * cols) by (nonlinear_arith);
    assert(rows * cols <= 0xffff * 0xffff) by (nonlinear_arith)
        requires
            0 <= rows <= 0xffff,
            0 <= cols <= 0xffff,
    ;
    assert(0 <= p.row * cols) by (nonlinear_arith)
        requires
            0 <= p.row,
            0 <= cols,
    ;
}

/// The grid index of a buffer position for the selection highlight: its line's row in
/// the view times the width, plus its column (at most the width), kept within the
/// screen.
pub open spec fn selection_cell_of(g: GridView, p: Point) -> int {
    let i = g.buffer_to_viewport(p.row as int) * g.cols + min(p.col as int, g.cols as int);
    if i < 0 {
        0
    } else if i > g.rows * g.cols {
        (g.rows * g.cols) as int
    } else {
        i
    }
}

impl Grid {
    /// The screen size, in lines and columns, that a window of `width` by `height`
    /// pixels holds with cells of `cell_width` by `cell_height` pixels, kept within the
    /// grid's size limits.
    pub fn size_for(width: u32, height: u32, cell_width: u32, cell_height: u32) -> (r: (usize, usize))
        requires
            cell_width > 0,
            cell_height > 0,
        ensures
            r.0 == clamp_size(height as int / cell_height as int, Grid::MIN_ROWS as int, Grid::MAX_ROWS as int),
            r.1 == clamp_size(width as int / cell_width as int, Grid::MIN_COLS as int, Grid::MAX_COLS as int),
    {
        let rows = (height / cell_height) as usize;
        let cols = (width / cell_width) as usize;
        let rows = if rows < Grid::MIN_ROWS {
            Grid::MIN_ROWS
        } else if rows > Grid::MAX_ROWS {
            Grid::MAX_ROWS
        } else {
            rows
        };
        let cols = if cols < Grid::MIN_COLS {
            Grid::MIN_COLS
        } else if cols > Grid::MAX_COLS {
            Grid::MAX_COLS
        } else {
            cols
        };
        (rows, cols)
    }

    /// The cells the cursor covers and its shape code, for drawing: see
    /// `cursor_uniform_of`. `preedit_cells` is the number of cells of input method
    /// preview shown, `bar` the bar cursor inside that preview.
    pub fn cursor_uniform(&self, style: CursorStyle, visible: bool, preedit_cells: usize, bar: Option<Point>) -> (r: (
        [u32; 2],
        u32,
    ))
        requires
            self.wf(),
            bar matches Some(p) ==> p.row < self@.rows && p.col <= self@.cols + 2,
        ensures
            (r.0[0] as int, r.0[1] as int, r.1 as int) == cursor_uniform_of(
                self@,
                style,
                visible,
                preedit_cells as nat,
                bar,
            ),
    {
        let cols = self.grid_cols();
        let rows = self.grid_rows();
        let point = self.cursor().point;
        proof {
            lemma_cell_index_bound(point, rows as int, cols as int);
        }
        let mut range: [u32; 2] = if preedit_cells == 0 {
            let line = self.screen_row(point.row);
            let wide = line[point.col].flags.contains(CellFlags::WIDE_CHAR);
            let begin = (point.row * cols + point.col) as u32;
            [begin, if wide {
                begin + 2
            } else {
                begin + 1
            }]
        } else {
            match bar {
                Some(p) => {
                    proof {
                        lemma_cell_index_bound(p, rows as int, cols as int);
                    }
                    let begin = (p.row * cols + p.col) as u32;
                    [begin, begin + 1]
                },
                None => [0u32, 0u32],
            }
        };
        let mut code = style.code();
        if bar.is_some() {
            code = CursorStyle::Bar.code();
        }
        if !visible {
            code = CursorStyle::Hidden.code();
        }
        if code == CursorStyle::Bar.code() {
            range = [range[0], range[0] + 1];
        }
        (range, code)
    }

    /// The grid index of buffer position `p` for the selection highlight.
    pub fn selection_cell_index(&self, p: Point) -> (r: u32)
        requires
            self.wf(),
        ensures
            r == selection_cell_of(self@, p),
    {
        let rows = self.grid_rows() as i128;
        let cols = self.grid_cols() as i128;
        let row = p.row as i128 + self.viewport_offset() as i128 + rows - self.buffer_len() as i128;
        let col = if p.col < self.grid_cols() {
            p.col as i128
        } else {
            cols
        };
        proof {
            assert(rows * cols <= 0xffff * 0xffff) by (nonlinear_arith)
                requires
                    0 <= rows <= 0xffff,
                    0 <= cols <= 0xffff,
            ;
            assert(-0x1_0000_0000_0000_0000 * 0x10000 <= row * cols <= 0x2_0000_0000_0000_0000 * 0x10000)
                by (nonlinear_arith)
                requires
                    -0x1_0000_0000_0000_0000 <= row <= 0x2_0000_0000_0000_0000,
                    0 <= cols <= 0xffff,
            ;
        }
        let size = rows * cols;
        let i = row * cols + col;
        let c = if i < 0 {
            0
        } else if i > size {
            size
        } else {
            i
        };
        c as u32
    }

    /// The grid indices that bound the selection highlight, `[0, 0]` for no selection.
    pub fn selection_cells(&self, range: Option<(Point, Point)>) -> (r: [u32; 2])
        requires
            self.wf(),
        ensures
            r@ == (match range {
                Some((b, e)) => seq![selection_cell_of(self@, b) as u32, selection_cell_of(self@, e) as u32],
                None => seq![selection_cell_of(self@, Point { row: 0, col: 0 }) as u32, selection_cell_of(self@, Point { row: 0, col: 0 }) as u32],
            }),
    {
        let (b, e) = match range {
            Some(pair) => pair,
            None => (Point { row: 0, col: 0 }, Point { row: 0, col: 0 }),
        };
        let r = [self.selection_cell_index(b), self.selection_cell_index(e)];
        assert(r@ =~= seq![r[0], r[1]]);
        r
    }
}

} // verus!
