use vstd::prelude::*;

use crate::cell::{default_cell, named_of, Cell, CellFlags, Color, NamedColor, Point};
use crate::grid::{text_between, CursorState, Grid, GridView};
use crate::input::{build, key_bytes, KeyModifiers, NamedKey};
use crate::text::{decimal, push_bytes, push_decimal};

verus! {

/// The terminal's mode flags, one bit each.
#[derive(Clone, Copy, Debug, PartialEq, Eq, Structural)]
pub struct TerminalMode {
    pub bits: u32,
}

impl TerminalMode {
    /// The alternate screen is shown (`ESC [ ? 1049 h/l`).
    pub const ALT_SCREEN: u32 = 0x001;
    /// Pasted text is framed (`ESC [ ? 2004 h/l`).
    pub const BRACKETED_PASTE: u32 = 0x002;
    /// The cursor is shown (`ESC [ ? 25 h/l`).
    pub const CURSOR_VISIBLE: u32 = 0x004;
    /// Mouse buttons are reported (`ESC [ ? 1000 h`).
    pub const MOUSE_REPORT: u32 = 0x008;
    /// Mouse drags are reported (`ESC [ ? 1002 h`).
    pub const MOUSE_DRAG: u32 = 0x010;
    /// Mouse motion is reported (`ESC [ ? 1003 h`).
    pub const MOUSE_MOTION: u32 = 0x020;
    /// Mouse reports use the SGR encoding (`ESC [ ? 1006 h`).
    pub const MOUSE_SGR: u32 = 0x040;
    /// Focus changes are reported (`ESC [ ? 1004 h`).
    pub const FOCUS_REPORT: u32 = 0x080;
    /// Application cursor keys (`ESC [ ? 1 h/l`).
    pub const DECCKM: u32 = 0x100;
    /// Application keypad (`ESC =` / `ESC >`).
    pub const DECKPAM: u32 = 0x200;

    /// The mode with no flag.
    pub fn empty() -> (r: TerminalMode)
        ensures
            r.bits == 0,
    {
        TerminalMode { bits: 0 }
    }

    /// The raw bits.
    pub fn bits(&self) -> (r: u32)
        ensures
            r == self.bits,
    {
        self.bits
    }

    /// Whether every bit of `mask` is set.
    pub fn contains(&self, mask: u32) -> (r: bool)
        ensures
            r == (self.bits & mask == mask),
    {
        self.bits & mask == mask
    }

    /// Whether some bit of `mask` is set.
    pub fn intersects(&self, mask: u32) -> (r: bool)
        ensures
            r == (self.bits & mask != 0),
    {
        self.bits & mask != 0
    }

    /// Sets the bits of `mask`.
    pub fn insert(&mut self, mask: u32)
        ensures
            final(self).bits == old(self).bits | mask,
    {
        self.bits = self.bits | mask;
    }

    /// Clears the bits of `mask`.
    pub fn remove(&mut self, mask: u32)
        ensures
            final(self).bits == old(self).bits & !mask,
    {
        self.bits = self.bits & !mask;
    }

    /// Sets or clears the bits of `mask`.
    pub fn set(&mut self, mask: u32, enable: bool)
        ensures
            final(self).bits == set_bits(old(self).bits, mask, enable),
    {
        if enable {
            self.insert(mask);
        } else {
            self.remove(mask);
        }
    }
}

/// `bits` with the bits of `mask` set (or cleared).
pub open spec fn set_bits(bits: u32, mask: u32, enable: bool) -> u32 {
    if enable {
        bits | mask
    } else {
        bits & !mask
    }
}

/// Whether every bit of `mask` is set in `bits`.
pub open spec fn has_flag(bits: u32, mask: u32) -> bool {
    bits & mask == mask
}

/// The shape of the cursor.
#[derive(Clone, Copy, Debug, PartialEq, Eq, Structural)]
pub enum CursorStyle {
    Hidden,
    Block,
    Underline,
    Bar,
    BlinkBlock,
    BlinkUnderline,
    BlinkBar,
}

/// The number of each cursor shape (0 to 6) that the renderer uses.
pub open spec fn style_code(s: CursorStyle) -> u32 {
    match s {
        CursorStyle::Hidden => 0,
        CursorStyle::Block => 1,
        CursorStyle::Underline => 2,
        CursorStyle::Bar => 3,
        CursorStyle::BlinkBlock => 4,
        CursorStyle::BlinkUnderline => 5,
        CursorStyle::BlinkBar => 6,
    }
}

impl CursorStyle {
    /// The number of this cursor shape.
    pub fn code(self) -> (r: u32)
        ensures
            r == style_code(self),
    {
        match self {
            CursorStyle::Hidden => 0,
            CursorStyle::Block => 1,
            CursorStyle::Underline => 2,
            CursorStyle::Bar => 3,
            CursorStyle::BlinkBlock => 4,
            CursorStyle::BlinkUnderline => 5,
            CursorStyle::BlinkBar => 6,
        }
    }
}

/// The cursor shape that DECSCUSR (`ESC [ n SP q`) selects: 0 and 1 a blinking block,
/// 2 a block, 3 a blinking underline, 4 an underline, 5 a blinking bar, 6 a bar,
/// anything else a blinking block.
pub open spec fn style_of(n: nat) -> CursorStyle {
    if n == 2 {
        CursorStyle::Block
    } else if n == 3 {
        CursorStyle::BlinkUnderline
    } else if n == 4 {
        CursorStyle::Underline
    } else if n == 5 {
        CursorStyle::BlinkBar
    } else if n == 6 {
        CursorStyle::Bar
    } else {
        CursorStyle::BlinkBlock
    }
}

/// The parameter groups of a control sequence, each holding its subparameters.
pub open spec fn params_view(params: &Vec<Vec<u16>>) -> Seq<Seq<u16>> {
    Seq::new(params@.len(), |i: int| params@[i]@)
}

/// Every parameter group has at least one subparameter.
pub open spec fn params_wf(params: Seq<Seq<u16>>) -> bool {
    forall|i: int| 0 <= i < params.len() ==> (#[trigger] params[i]).len() > 0
}

/// Parameter `index` (its first subparameter), or `default` when it is absent or 0.
pub open spec fn param_or(params: Seq<Seq<u16>>, index: int, default: nat) -> nat {
    if 0 <= index < params.len() && params[index].len() > 0 && params[index][0] != 0 {
        params[index][0] as nat
    } else {
        default
    }
}

/// The low byte of a parameter.
pub open spec fn low_byte(x: u16) -> u8 {
    (x % 256) as u8
}

/// An extended colour (`5;n` or `2;r;g;b`) read from parameter group `i` on, and the
/// group after the ones it used. A missing true-colour component counts as 0.
pub open spec fn extend_color(params: Seq<Seq<u16>>, i: int) -> (Option<Color>, int) {
    if i >= params.len() {
        (None, i)
    } else {
        let kind = params[i][0];
        if kind == 5 {
            if i + 1 < params.len() {
                (Some(Color::Indexed(low_byte(params[i + 1][0]))), i + 2)
            } else {
                (None, i + 1)
            }
        } else if kind == 2 {
            let r = if i + 1 < params.len() { low_byte(params[i + 1][0]) } else { 0u8 };
            let g = if i + 2 < params.len() { low_byte(params[i + 2][0]) } else { 0u8 };
            let b = if i + 3 < params.len() { low_byte(params[i + 3][0]) } else { 0u8 };
            let next = if params.len() - i > 4 { i + 4 } else { params.len() as int };
            (Some(Color::Rgb(r, g, b)), next)
        } else {
            (None, i + 1)
        }
    }
}

/// A template cell with attribute bits set or cleared.
pub open spec fn with_flags(t: Cell, bits: u16) -> Cell {
    Cell { flags: CellFlags { bits: bits }, ..t }
}

/// One SGR code (from parameter group `i`) applied to a template cell, and the group
/// after the ones it used.
pub open spec fn sgr_step(t: Cell, params: Seq<Seq<u16>>, i: int) -> (Cell, int) {
    let code = params[i][0];
    let f = t.flags.bits;
    if code == 0 {
        (default_cell(), i + 1)
    } else if code == 1 {
        (with_flags(t, f | CellFlags::BOLD), i + 1)
    } else if code == 2 {
        (with_flags(t, f | CellFlags::DIM), i + 1)
    } else if code == 22 {
        (with_flags(t, f & !CellFlags::BOLD & !CellFlags::DIM), i + 1)
    } else if code == 3 {
        (with_flags(t, f | CellFlags::ITALIC), i + 1)
    } else if code == 23 {
        (with_flags(t, f & !CellFlags::ITALIC), i + 1)
    } else if code == 4 {
        (with_flags(t, f | CellFlags::UNDERLINE), i + 1)
    } else if code == 24 {
        (with_flags(t, f & !CellFlags::UNDERLINE), i + 1)
    } else if code == 5 || code == 6 {
        (with_flags(t, f | CellFlags::BLINK), i + 1)
    } else if code == 25 {
        (with_flags(t, f & !CellFlags::BLINK), i + 1)
    } else if code == 7 {
        (with_flags(t, f | CellFlags::INVERSE), i + 1)
    } else if code == 27 {
        (with_flags(t, f & !CellFlags::INVERSE), i + 1)
    } else if code == 8 {
        (with_flags(t, f | CellFlags::HIDDEN), i + 1)
    } else if code == 28 {
        (with_flags(t, f & !CellFlags::HIDDEN), i + 1)
    } else if code == 9 {
        (with_flags(t, f | CellFlags::STRIKEOUT), i + 1)
    } else if code == 29 {
        (with_flags(t, f & !CellFlags::STRIKEOUT), i + 1)
    } else if 30 <= code <= 37 {
        (Cell { fg: Color::Named(named_of(code - 30)), ..t }, i + 1)
    } else if code == 38 {
        let (c, next) = extend_color(params, i + 1);
        (
            match c {
                Some(color) => Cell { fg: color, ..t },
                None => t,
            },
            next,
        )
    } else if code == 39 {
        (Cell { fg: Color::Named(NamedColor::Foreground), ..t }, i + 1)
    } else if 40 <= code <= 47 {
        (Cell { bg: Color::Named(named_of(code - 40)), ..t }, i + 1)
    } else if code == 48 {
        let (c, next) = extend_color(params, i + 1);
        (
            match c {
                Some(color) => Cell { bg: color, ..t },
                None => t,
            },
            next,
        )
    } else if code == 49 {
        (Cell { bg: Color::Named(NamedColor::Background), ..t }, i + 1)
    } else if 90 <= code <= 97 {
        (Cell { fg: Color::Named(named_of(code - 90 + 8)), ..t }, i + 1)
    } else if 100 <= code <= 107 {
        (Cell { bg: Color::Named(named_of(code - 100 + 8)), ..t }, i + 1)
    } else {
        (t, i + 1)
    }
}

/// The SGR codes from parameter group `i` on applied to a template cell.
pub open spec fn sgr_from(t: Cell, params: Seq<Seq<u16>>, i: int) -> Cell
    decreases params.len() - i,
{
    if i < 0 || i >= params.len() {
        t
    } else {
        let (t2, next) = sgr_step(t, params, i);
        if next <= i {
            t2
        } else {
            sgr_from(t2, params, next)
        }
    }
}

/// Select Graphic Rendition: no parameter resets the template; otherwise each code in
/// turn sets or clears an attribute or sets a colour.
pub open spec fn sgr(t: Cell, params: Seq<Seq<u16>>) -> Cell {
    if params.len() == 0 {
        default_cell()
    } else {
        sgr_from(t, params, 0)
    }
}

/// What a terminal holds: its main and alternate screens, its mode flags, the bytes
/// it owes the shell, and its cursor shape.
pub struct TerminalView {
    pub grid: GridView,
    pub alt_grid: GridView,
    pub mode: u32,
    pub write_back: Seq<u8>,
    pub cursor_style: CursorStyle,
}

impl TerminalView {
    /// Whether the alternate screen is shown.
    pub open spec fn alt(self) -> bool {
        has_flag(self.mode, TerminalMode::ALT_SCREEN)
    }

    /// The screen shown.
    pub open spec fn active(self) -> GridView {
        if self.alt() {
            self.alt_grid
        } else {
            self.grid
        }
    }

    /// The shown screen replaced by `g`.
    pub open spec fn with_active(self, g: GridView) -> TerminalView {
        if self.alt() {
            TerminalView { alt_grid: g, ..self }
        } else {
            TerminalView { grid: g, ..self }
        }
    }

    /// The shown screen scrolled to the bottom.
    pub open spec fn to_bottom(self) -> TerminalView {
        self.with_active(GridView { viewport_offset: 0, ..self.active() })
    }

    /// Both screens well-formed and of one size, the alternate one without scrollback.
    pub open spec fn wf(self) -> bool {
        &&& self.grid.wf()
        &&& self.alt_grid.wf()
        &&& self.grid.rows == self.alt_grid.rows
        &&& self.grid.cols == self.alt_grid.cols
        &&& self.alt_grid.max_scrollback == 0
    }

    /// A DEC private mode set or reset (`ESC [ ? n h` / `ESC [ ? n l`). Entering the
    /// alternate screen clears it; the mouse modes 1000, 1002 and 1003 exclude each
    /// other; unknown modes change nothing.
    pub open spec fn set_dec_mode(self, mode: nat, enable: bool) -> TerminalView {
        let m = self.mode;
        if mode == 1049 {
            TerminalView {
                mode: set_bits(m, TerminalMode::ALT_SCREEN, enable),
                alt_grid: if enable {
                    self.alt_grid.clear()
                } else {
                    self.alt_grid
                },
                ..self
            }
        } else if mode == 2004 {
            TerminalView { mode: set_bits(m, TerminalMode::BRACKETED_PASTE, enable), ..self }
        } else if mode == 25 {
            TerminalView { mode: set_bits(m, TerminalMode::CURSOR_VISIBLE, enable), ..self }
        } else if mode == 1000 || mode == 1002 || mode == 1003 {
            let cleared = m & !(TerminalMode::MOUSE_REPORT | TerminalMode::MOUSE_DRAG | TerminalMode::MOUSE_MOTION);
            let flag = if mode == 1000 {
                TerminalMode::MOUSE_REPORT
            } else if mode == 1002 {
                TerminalMode::MOUSE_DRAG
            } else {
                TerminalMode::MOUSE_MOTION
            };
            TerminalView { mode: set_bits(cleared, flag, enable), ..self }
        } else if mode == 1006 {
            TerminalView { mode: set_bits(m, TerminalMode::MOUSE_SGR, enable), ..self }
        } else if mode == 1004 {
            TerminalView { mode: set_bits(m, TerminalMode::FOCUS_REPORT, enable), ..self }
        } else if mode == 1 {
            TerminalView { mode: set_bits(m, TerminalMode::DECCKM, enable), ..self }
        } else {
            self
        }
    }

    /// The DEC private modes of parameter groups `i..` set or reset in turn.
    pub open spec fn set_dec_modes(self, params: Seq<Seq<u16>>, i: int, enable: bool) -> TerminalView
        decreases params.len() - i,
    {
        if i < 0 || i >= params.len() {
            self
        } else {
            self.set_dec_mode(params[i][0] as nat, enable).set_dec_modes(params, i + 1, enable)
        }
    }

    /// A printed character of display width `width` written on the shown screen,
    /// which scrolls to the bottom first.
    pub open spec fn print_width(self, c: char, width: nat) -> TerminalView {
        let t = self.to_bottom();
        t.with_active(t.active().write_char(c, width))
    }

    /// A printed character written with the display width that the unicode-width
    /// crate gives it (none for a control character).
    pub open spec fn print(self, c: char) -> TerminalView {
        self.print_width(
            c,
            match crate::text::unicode_char_width(c) {
                Some(w) => w as nat,
                None => 0,
            },
        )
    }

    /// A C0 control character: line feed, carriage return, backspace and tab move the
    /// cursor; others change nothing.
    pub open spec fn execute(self, byte: u8) -> TerminalView {
        let g = self.active();
        if byte == 0x0a {
            self.with_active(g.linefeed())
        } else if byte == 0x0d {
            self.with_active(g.carriage_return())
        } else if byte == 0x08 {
            self.with_active(g.cursor_left(1))
        } else if byte == 0x09 {
            self.with_active(
                g.moved(g.cursor.point.row as int, crate::grid::round_up8(g.cursor.point.col + 1)),
            )
        } else {
            self
        }
    }

    /// A control sequence (`ESC [ ...`) with parameter groups `params`, intermediate
    /// bytes `inter` and final character `action`. Unless it is to be ignored, the
    /// shown screen scrolls to the bottom first.
    pub open spec fn csi_dispatch(self, params: Seq<Seq<u16>>, inter: Seq<u8>, ignore: bool, action: char) -> TerminalView {
        if ignore {
            self
        } else {
            let t = self.to_bottom();
            let g = t.active();
            let none = inter.len() == 0;
            let row = g.cursor.point.row as int;
            let col = g.cursor.point.col as int;
            if none && action == 'A' {
                t.with_active(g.cursor_up(param_or(params, 0, 1)))
            } else if none && action == 'B' {
                t.with_active(g.cursor_down(param_or(params, 0, 1)))
            } else if none && action == 'C' {
                t.with_active(g.cursor_right(param_or(params, 0, 1)))
            } else if none && action == 'D' {
                t.with_active(g.cursor_left(param_or(params, 0, 1)))
            } else if none && action == 'H' {
                t.with_active(g.moved(param_or(params, 0, 1) - 1, param_or(params, 1, 1) - 1))
            } else if none && action == 'G' {
                t.with_active(g.moved(row, param_or(params, 0, 1) - 1))
            } else if none && action == 'd' {
                t.with_active(g.moved(param_or(params, 0, 1) - 1, col))
            } else if none && action == 'J' {
                t.with_active(g.erase_display(param_or(params, 0, 0)))
            } else if none && action == 'K' {
                t.with_active(g.erase_row(param_or(params, 0, 0)))
            } else if none && action == 'X' {
                t.with_active(g.erase_chars(param_or(params, 0, 1)))
            } else if none && action == 'n' {
                if param_or(params, 0, 0) == 6 {
                    TerminalView {
                        write_back: t.write_back + seq![0x1bu8, 0x5b] + decimal((row + 1) as nat) + seq![0x3bu8]
                            + decimal((col + 1) as nat) + seq![0x52u8],
                        ..t
                    }
                } else {
                    t
                }
            } else if none && action == 'm' {
                t.with_active(
                    GridView { cursor: CursorState { template: sgr(g.cursor.template, params), ..g.cursor }, ..g },
                )
            } else if inter == seq![0x3fu8] && action == 'h' {
                t.set_dec_modes(params, 0, true)
            } else if inter == seq![0x3fu8] && action == 'l' {
                t.set_dec_modes(params, 0, false)
            } else if none && action == 'L' {
                t.with_active(g.insert_lines(param_or(params, 0, 1)))
            } else if none && action == 'M' {
                t.with_active(g.delete_lines(param_or(params, 0, 1)))
            } else if inter == seq![0x20u8] && action == 'q' {
                TerminalView { cursor_style: style_of(param_or(params, 0, 0)), ..t }
            } else {
                t
            }
        }
    }

    /// An escape sequence (`ESC ...`) with intermediate bytes `inter` and final byte
    /// `byte`: reverse index, cursor save and restore, keypad mode. Unless it is to be
    /// ignored, the shown screen scrolls to the bottom first.
    pub open spec fn esc_dispatch(self, inter: Seq<u8>, ignore: bool, byte: u8) -> TerminalView {
        if ignore {
            self
        } else {
            let t = self.to_bottom();
            let g = t.active();
            if inter.len() != 0 {
                t
            } else if byte == 0x4d {
                t.with_active(g.reverse_index())
            } else if byte == 0x37 {
                t.with_active(g.save_cursor())
            } else if byte == 0x38 {
                t.with_active(g.restore_cursor())
            } else if byte == 0x3d {
                TerminalView { mode: t.mode | TerminalMode::DECKPAM, ..t }
            } else if byte == 0x3e {
                TerminalView { mode: t.mode & !TerminalMode::DECKPAM, ..t }
            } else {
                t
            }
        }
    }
}

/// Replacing the shown screen and reading it back.
proof fn lemma_active(t: TerminalView, g: GridView)
    ensures
        t.with_active(g).active() == g,
        t.with_active(g).alt() == t.alt(),
        t.with_active(g).mode == t.mode,
        t.with_active(g).write_back == t.write_back,
        t.with_active(g).cursor_style == t.cursor_style,
        t.with_active(t.active()) == t,
        t.with_active(g).with_active(t.active()) == t,
        t.alt() ==> t.with_active(g).grid == t.grid,
        !t.alt() ==> t.with_active(g).alt_grid == t.alt_grid,
{
}

/// Parameter `index` (its first subparameter), or `default` when it is absent or 0.
pub fn param(params: &Vec<Vec<u16>>, index: usize, default: usize) -> (r: usize)
    ensures
        r == param_or(params_view(params), index as int, default as nat),
{
    if index < params.len() && params[index].len() > 0 && params[index][0] != 0 {
        params[index][0] as usize
    } else {
        default
    }
}

/// Reads an extended colour (`5;n` or `2;r;g;b`) from parameter group `i` on; also
/// gives the group after the ones it used.
pub fn handle_extend_color(params: &Vec<Vec<u16>>, i: usize) -> (r: (Option<Color>, usize))
    requires
        params_wf(params_view(params)),
    ensures
        (r.0, r.1 as int) == extend_color(params_view(params), i as int),
{
    let ghost p = params_view(params);
    if i >= params.len() {
        return (None, i);
    }
    assert(p[i as int] == params@[i as int]@);
    let kind = params[i][0];
    if kind == 5 {
        if params.len() - i > 1 {
            assert(p[i + 1] == params@[i + 1]@);
            let idx = params[i + 1][0];
            (Some(Color::Indexed((idx % 256) as u8)), i + 2)
        } else {
            (None, i + 1)
        }
    } else if kind == 2 {
        let r: u8 = if params.len() - i > 1 {
            assert(p[i + 1] == params@[i + 1]@);
            (params[i + 1][0] % 256) as u8
        } else {
            0
        };
        let g: u8 = if params.len() - i > 2 {
            assert(p[i + 2] == params@[i + 2]@);
            (params[i + 2][0] % 256) as u8
        } else {
            0
        };
        let b: u8 = if params.len() - i > 3 {
            assert(p[i + 3] == params@[i + 3]@);
            (params[i + 3][0] % 256) as u8
        } else {
            0
        };
        let next = if params.len() - i > 4 {
            i + 4
        } else {
            params.len()
        };
        (Some(Color::Rgb(r, g, b)), next)
    } else {
        (None, i + 1)
    }
}

/// Applies one SGR code (from parameter group `i`) to a template cell; gives the
/// group after the ones it used.
fn sgr_step_exec(t: Cell, params: &Vec<Vec<u16>>, i: usize) -> (r: (Cell, usize))
    requires
        params_wf(params_view(params)),
        i < params.len(),
    ensures
        (r.0, r.1 as int) == sgr_step(t, params_view(params), i as int),
        r.1 > i,
{
    let ghost p = params_view(params);
    assert(p[i as int] == params@[i as int]@);
    let code = params[i][0];
    let mut t = t;
    if code == 0 {
        (Cell::blank(), i + 1)
    } else if code == 1 {
        t.flags.insert(CellFlags::BOLD);
        (t, i + 1)
    } else if code == 2 {
        t.flags.insert(CellFlags::DIM);
        (t, i + 1)
    } else if code == 22 {
        t.flags.remove(CellFlags::BOLD);
        t.flags.remove(CellFlags::DIM);
        (t, i + 1)
    } else if code == 3 {
        t.flags.insert(CellFlags::ITALIC);
        (t, i + 1)
    } else if code == 23 {
        t.flags.remove(CellFlags::ITALIC);
        (t, i + 1)
    } else if code == 4 {
        t.flags.insert(CellFlags::UNDERLINE);
        (t, i + 1)
    } else if code == 24 {
        t.flags.remove(CellFlags::UNDERLINE);
        (t, i + 1)
    } else if code == 5 || code == 6 {
        t.flags.insert(CellFlags::BLINK);
        (t, i + 1)
    } else if code == 25 {
        t.flags.remove(CellFlags::BLINK);
        (t, i + 1)
    } else if code == 7 {
        t.flags.insert(CellFlags::INVERSE);
        (t, i + 1)
    } else if code == 27 {
        t.flags.remove(CellFlags::INVERSE);
        (t, i + 1)
    } else if code == 8 {
        t.flags.insert(CellFlags::HIDDEN);
        (t, i + 1)
    } else if code == 28 {
        t.flags.remove(CellFlags::HIDDEN);
        (t, i + 1)
    } else if code == 9 {
        t.flags.insert(CellFlags::STRIKEOUT);
        (t, i + 1)
    } else if code == 29 {
        t.flags.remove(CellFlags::STRIKEOUT);
        (t, i + 1)
    } else if 30 <= code && code <= 37 {
        if let Some(c) = NamedColor::from_index((code - 30) as u8) {
            t.fg = Color::Named(c);
        }
        (t, i + 1)
    } else if code == 38 {
        let (c, next) = handle_extend_color(params, i + 1);
        if let Some(color) = c {
            t.fg = color;
        }
        (t, next)
    } else if code == 39 {
        t.fg = Color::Named(NamedColor::Foreground);
        (t, i + 1)
    } else if 40 <= code && code <= 47 {
        if let Some(c) = NamedColor::from_index((code - 40) as u8) {
            t.bg = Color::Named(c);
        }
        (t, i + 1)
    } else if code == 48 {
        let (c, next) = handle_extend_color(params, i + 1);
        if let Some(color) = c {
            t.bg = color;
        }
        (t, next)
    } else if code == 49 {
        t.bg = Color::Named(NamedColor::Background);
        (t, i + 1)
    } else if 90 <= code && code <= 97 {
        if let Some(c) = NamedColor::from_index((code - 90 + 8) as u8) {
            t.fg = Color::Named(c);
        }
        (t, i + 1)
    } else if 100 <= code && code <= 107 {
        if let Some(c) = NamedColor::from_index((code - 100 + 8) as u8) {
            t.bg = Color::Named(c);
        }
        (t, i + 1)
    } else {
        (t, i + 1)
    }
}

/// Select Graphic Rendition: applies the codes of `params` to the template cell; no
/// parameter resets it.
pub fn handle_sgr(template: &mut Cell, params: &Vec<Vec<u16>>)
    requires
        params_wf(params_view(params)),
    ensures
        *final(template) == sgr(*old(template), params_view(params)),
{
    let ghost p = params_view(params);
    if params.len() == 0 {
        *template = Cell::blank();
        return;
    }
    let mut i: usize = 0;
    while i < params.len()
        invariant
            p == params_view(params),
            params_wf(p),
            0 <= i <= p.len(),
            p.len() > 0,
            sgr_from(*template, p, i as int) == sgr(*old(template), p),
        decreases p.len() - i,
    {
        let (t2, next) = sgr_step_exec(*template, params, i);
        *template = t2;
        i = next;
    }
}

/// The bytes sent for pasted text: framed by `ESC [ 200 ~` and `ESC [ 201 ~` in
/// bracketed paste mode, else the text alone.
pub open spec fn paste_frame(mode: u32, text: Seq<u8>) -> Seq<u8> {
    if has_flag(mode, TerminalMode::BRACKETED_PASTE) {
        seq![0x1bu8, 0x5b, 0x32, 0x30, 0x30, 0x7e] + text + seq![0x1bu8, 0x5b, 0x32, 0x30, 0x31, 0x7e]
    } else {
        text
    }
}

/// The focus report: `ESC [ I` on gaining focus, `ESC [ O` on losing it, when focus
/// reporting is on.
pub open spec fn focus_bytes(mode: u32, focused: bool) -> Option<Seq<u8>> {
    if has_flag(mode, TerminalMode::FOCUS_REPORT) {
        Some(
            if focused {
                seq![0x1bu8, 0x5b, 0x49]
            } else {
                seq![0x1bu8, 0x5b, 0x4f]
            },
        )
    } else {
        None
    }
}

/// Whether some mouse report mode (buttons, drags or motion) is on.
pub open spec fn mouse_reporting(mode: u32) -> bool {
    mode & (TerminalMode::MOUSE_REPORT | TerminalMode::MOUSE_DRAG | TerminalMode::MOUSE_MOTION) != 0
}

/// The text of the lines that the view of a screen shows, each followed by a newline
/// (the view no further back than the oldest scrollback line).
pub open spec fn visible_text(g: GridView) -> Seq<char> {
    let top = g.screen_start() - crate::grid::min(g.viewport_offset as int, g.screen_start());
    text_between(
        g.lines,
        Point { row: top as usize, col: 0 },
        Point { row: (top + g.rows - 1) as usize, col: usize::MAX },
    )
}

/// The state machine that the control sequences from the shell drive: the main and
/// alternate screens, the mode flags, the bytes owed to the shell, the cursor shape.
#[derive(Clone, Debug)]
pub struct TerminalCore {
    grid: Grid,
    alt_grid: Grid,
    mode: TerminalMode,
    write_back: Vec<u8>,
    cursor_style: CursorStyle,
}

impl View for TerminalCore {
    type V = TerminalView;

    closed spec fn view(&self) -> TerminalView {
        TerminalView {
            grid: self.grid@,
            alt_grid: self.alt_grid@,
            mode: self.mode.bits,
            write_back: self.write_back@,
            cursor_style: self.cursor_style,
        }
    }
}

impl TerminalCore {
    /// Whether both screens keep their invariant and have one size.
    pub open spec fn wf(&self) -> bool {
        self@.wf()
    }

    /// A terminal of `rows` lines and `cols` columns, with `max_scrollback` lines of
    /// scrollback on the main screen and none on the alternate one, the cursor shown
    /// as a block, nothing owed to the shell.
    pub fn new(rows: usize, cols: usize, max_scrollback: usize) -> (r: TerminalCore)
        requires
            Grid::MIN_ROWS <= rows <= Grid::MAX_ROWS,
            Grid::MIN_COLS <= cols <= Grid::MAX_COLS,
            rows + max_scrollback <= usize::MAX,
        ensures
            r.wf(),
            r@.grid == Grid::new_view(rows as nat, cols as nat, max_scrollback as nat),
            r@.alt_grid == Grid::new_view(rows as nat, cols as nat, 0),
            r@.mode == TerminalMode::CURSOR_VISIBLE,
            r@.write_back == Seq::<u8>::empty(),
            r@.cursor_style == CursorStyle::Block,
    {
        let r = TerminalCore {
            grid: Grid::new(rows, cols, max_scrollback),
            alt_grid: Grid::new(rows, cols, 0),
            mode: TerminalMode { bits: TerminalMode::CURSOR_VISIBLE },
            write_back: Vec::new(),
            cursor_style: CursorStyle::Block,
        };
        assert(r@.write_back =~= Seq::<u8>::empty());
        r
    }

    /// Resizes both screens.
    pub fn resize(&mut self, rows: usize, cols: usize)
        requires
            old(self).wf(),
            rows <= Grid::MAX_ROWS,
            cols <= Grid::MAX_COLS,
            crate::grid::max(rows as int, 1) + old(self)@.grid.max_scrollback <= usize::MAX,
        ensures
            final(self).wf(),
            final(self)@ == (TerminalView {
                grid: old(self)@.grid.resize(rows as nat, cols as nat),
                alt_grid: old(self)@.alt_grid.resize(rows as nat, cols as nat),
                ..old(self)@
            }),
    {
        self.grid.resize(rows, cols);
        self.alt_grid.resize(rows, cols);
    }

    /// The screen shown: the alternate one in alternate screen mode, else the main one.
    pub fn active_grid(&self) -> (r: &Grid)
        requires
            self.wf(),
        ensures
            r@ == self@.active(),
            r.wf(),
    {
        if self.mode.contains(TerminalMode::ALT_SCREEN) {
            &self.alt_grid
        } else {
            &self.grid
        }
    }


    /// The cursor of the screen shown.
    pub fn cursor(&self) -> (r: &CursorState)
        requires
            self.wf(),
        ensures
            *r == self@.active().cursor,
    {
        self.active_grid().cursor()
    }

    /// The cursor shape.
    pub fn cursor_style(&self) -> (r: CursorStyle)
        ensures
            r == self@.cursor_style,
    {
        self.cursor_style
    }

    /// The mode flags.
    pub fn mode(&self) -> (r: TerminalMode)
        ensures
            r.bits == self@.mode,
    {
        self.mode
    }

    /// The number of lines of the screen shown.
    pub fn grid_rows(&self) -> (r: usize)
        requires
            self.wf(),
        ensures
            r == self@.active().rows,
    {
        self.active_grid().grid_rows()
    }

    /// The number of columns of the screen shown.
    pub fn grid_cols(&self) -> (r: usize)
        requires
            self.wf(),
        ensures
            r == self@.active().cols,
    {
        self.active_grid().grid_cols()
    }

    /// Scrolls the view of the screen shown by `lines` lines (back when positive).
    pub fn scroll(&mut self, lines: isize)
        requires
            old(self).wf(),
        ensures
            final(self).wf(),
            final(self)@ == old(self)@.with_active(old(self)@.active().scroll(lines as int)),
    {
        self.active_grid_mut().scroll(lines);
    }

    /// Scrolls the screen shown to the bottom.
    pub fn scroll_to_bottom(&mut self)
        requires
            old(self).wf(),
        ensures
            final(self).wf(),
            final(self)@ == old(self)@.to_bottom(),
    {
        self.active_grid_mut().scroll_to_bottom();
    }

    /// The text between buffer positions `begin` and `end` of the screen shown.
    pub fn get_text(&self, begin: Point, end: Point) -> (r: String)
        requires
            self.wf(),
        ensures
            r@ == text_between(self@.active().lines, begin, end),
    {
        self.active_grid().get_text(begin, end)
    }

    /// Takes the bytes owed to the shell (replies to status requests).
    pub fn take_write_back(&mut self) -> (r: Vec<u8>)
        ensures
            r@ == old(self)@.write_back,
            final(self)@ == (TerminalView { write_back: Seq::empty(), ..old(self)@ }),
    {
        let mut out: Vec<u8> = Vec::new();
        std::mem::swap(&mut out, &mut self.write_back);
        assert(self@.write_back =~= Seq::<u8>::empty());
        out
    }

    /// Sets or resets DEC private mode `mode`.
    pub fn set_dec_mode(&mut self, mode: usize, enable: bool)
        requires
            old(self).wf(),
        ensures
            final(self).wf(),
            final(self)@ == old(self)@.set_dec_mode(mode as nat, enable),
    {
        if mode == 1049 {
            self.mode.set(TerminalMode::ALT_SCREEN, enable);
            if enable {
                self.alt_grid.clear();
            }
        } else if mode == 2004 {
            self.mode.set(TerminalMode::BRACKETED_PASTE, enable);
        } else if mode == 25 {
            self.mode.set(TerminalMode::CURSOR_VISIBLE, enable);
        } else if mode == 1000 || mode == 1002 || mode == 1003 {
            self.mode.remove(TerminalMode::MOUSE_REPORT | TerminalMode::MOUSE_DRAG | TerminalMode::MOUSE_MOTION);
            if mode == 1000 {
                self.mode.set(TerminalMode::MOUSE_REPORT, enable);
            } else if mode == 1002 {
                self.mode.set(TerminalMode::MOUSE_DRAG, enable);
            } else {
                self.mode.set(TerminalMode::MOUSE_MOTION, enable);
            }
        } else if mode == 1006 {
            self.mode.set(TerminalMode::MOUSE_SGR, enable);
        } else if mode == 1004 {
            self.mode.set(TerminalMode::FOCUS_REPORT, enable);
        } else if mode == 1 {
            self.mode.set(TerminalMode::DECCKM, enable);
        }
    }

    /// Writes a printed character of display width `width` on the screen shown, which
    /// scrolls to the bottom first.
    pub fn print_with_width(&mut self, c: char, width: usize)
        requires
            old(self).wf(),
        ensures
            final(self).wf(),
            final(self)@ == old(self)@.print_width(c, width as nat),
    {
        self.active_grid_mut().scroll_to_bottom();
        self.active_grid_mut().write_char_with_width(c, width);
    }

    /// Writes a printed character on the screen shown, with the display width that
    /// the unicode-width crate gives it.
    pub fn print(&mut self, c: char)
        requires
            old(self).wf(),
        ensures
            final(self).wf(),
            final(self)@ == old(self)@.print(c),
    {
        self.active_grid_mut().scroll_to_bottom();
        self.active_grid_mut().write_char(c);
    }

    /// Carries out a C0 control character: line feed, carriage return, backspace, tab.
    pub fn execute(&mut self, byte: u8)
        requires
            old(self).wf(),
        ensures
            final(self).wf(),
            final(self)@ == old(self)@.execute(byte),
    {
        if byte == 0x0a {
            self.active_grid_mut().linefeed();
        } else if byte == 0x0d {
            self.active_grid_mut().carriage_return();
        } else if byte == 0x08 {
            self.active_grid_mut().backspace();
        } else if byte == 0x09 {
            self.active_grid_mut().tab();
        }
    }

    /// Carries out an escape sequence: reverse index, cursor save and restore, keypad mode.
    pub fn esc_dispatch(&mut self, intermediates: &[u8], ignore: bool, byte: u8)
        requires
            old(self).wf(),
        ensures
            final(self).wf(),
            final(self)@ == old(self)@.esc_dispatch(intermediates@, ignore, byte),
    {
        if ignore {
            return;
        }
        self.active_grid_mut().scroll_to_bottom();
        if intermediates.len() != 0 {
            return;
        }
        if byte == 0x4d {
            self.active_grid_mut().reverse_index();
        } else if byte == 0x37 {
            self.active_grid_mut().save_cursor();
        } else if byte == 0x38 {
            self.active_grid_mut().restore_cursor();
        } else if byte == 0x3d {
            self.mode.insert(TerminalMode::DECKPAM);
        } else if byte == 0x3e {
            self.mode.remove(TerminalMode::DECKPAM);
        }
    }


    /// Carries out a control sequence with parameter groups `params`, intermediate
    /// bytes `intermediates` and final character `action`: cursor movement, erasing,
    /// status report, SGR, DEC private modes, line insertion and deletion, cursor shape.
    #[verifier::rlimit(50)]
    pub fn csi_dispatch(&mut self, params: &Vec<Vec<u16>>, intermediates: &[u8], ignore: bool, action: char)
        requires
            old(self).wf(),
            params_wf(params_view(params)),
        ensures
            final(self).wf(),
            final(self)@ == old(self)@.csi_dispatch(params_view(params), intermediates@, ignore, action),
    {
        let ghost p = params_view(params);
        let ghost inter = intermediates@;
        if ignore {
            return;
        }
        self.active_grid_mut().scroll_to_bottom();
        let ghost t = self@;
        let none = intermediates.len() == 0;
        let question = intermediates.len() == 1 && intermediates[0] == 0x3f;
        let space = intermediates.len() == 1 && intermediates[0] == 0x20;
        proof {
            assert(question <==> inter == seq![0x3fu8]) by {
                if inter.len() == 1 && inter[0] == 0x3f {
                    assert(inter =~= seq![0x3fu8]);
                }
            }
            assert(space <==> inter == seq![0x20u8]) by {
                if inter.len() == 1 && inter[0] == 0x20 {
                    assert(inter =~= seq![0x20u8]);
                }
            }
        }
        if none && action == 'A' {
            let n = param(params, 0, 1);
            self.active_grid_mut().cursor_up(n);
        } else if none && action == 'B' {
            let n = param(params, 0, 1);
            self.active_grid_mut().cursor_down(n);
        } else if none && action == 'C' {
            let n = param(params, 0, 1);
            self.active_grid_mut().cursor_right(n);
        } else if none && action == 'D' {
            let n = param(params, 0, 1);
            self.active_grid_mut().cursor_left(n);
        } else if none && action == 'H' {
            let row = param(params, 0, 1) - 1;
            let col = param(params, 1, 1) - 1;
            self.active_grid_mut().cursor_goto(row, col);
        } else if none && action == 'G' {
            let col = param(params, 0, 1) - 1;
            self.active_grid_mut().cursor_goto_col(col);
        } else if none && action == 'd' {
            let row = param(params, 0, 1) - 1;
            self.active_grid_mut().cursor_goto_row(row);
        } else if none && action == 'J' {
            let mode = param(params, 0, 0);
            self.active_grid_mut().erase_display(mode);
        } else if none && action == 'K' {
            let mode = param(params, 0, 0);
            self.active_grid_mut().erase_row(mode);
        } else if none && action == 'X' {
            let n = param(params, 0, 1);
            self.active_grid_mut().erase_chars(n);
        } else if none && action == 'n' {
            let mode = param(params, 0, 0);
            if mode == 6 {
                let point = self.active_grid().cursor().point;
                let ghost before = self.write_back@;
                push_bytes(&mut self.write_back, &[0x1bu8, 0x5b]);
                push_decimal(&mut self.write_back, point.row + 1);
                self.write_back.push(0x3b);
                push_decimal(&mut self.write_back, point.col + 1);
                self.write_back.push(0x52);
                assert(self@.write_back =~= before + seq![0x1bu8, 0x5b] + decimal((point.row + 1) as nat)
                    + seq![0x3bu8] + decimal((point.col + 1) as nat) + seq![0x52u8]);
            }
        } else if none && action == 'm' {
            handle_sgr(self.active_grid_mut().cursor_template_mut(), params);
            proof {
                lemma_active(t, self@.active());
                crate::grid::lemma_wf_same_lines(t.active(), self@.active());
            }
        } else if question && action == 'h' {
            self.set_dec_modes(params, true);
        } else if question && action == 'l' {
            self.set_dec_modes(params, false);
        } else if none && action == 'L' {
            let n = param(params, 0, 1);
            self.active_grid_mut().insert_lines(n);
        } else if none && action == 'M' {
            let n = param(params, 0, 1);
            self.active_grid_mut().delete_lines(n);
        } else if space && action == 'q' {
            let style = param(params, 0, 0);
            self.cursor_style = if style == 0 || style == 1 {
                CursorStyle::BlinkBlock
            } else if style == 2 {
                CursorStyle::Block
            } else if style == 3 {
                CursorStyle::BlinkUnderline
            } else if style == 4 {
                CursorStyle::Underline
            } else if style == 5 {
                CursorStyle::BlinkBar
            } else if style == 6 {
                CursorStyle::Bar
            } else {
                CursorStyle::BlinkBlock
            };
        }
    }

    /// Sets or resets the DEC private mode of each parameter group in turn.
    fn set_dec_modes(&mut self, params: &Vec<Vec<u16>>, enable: bool)
        requires
            old(self).wf(),
            params_wf(params_view(params)),
        ensures
            final(self).wf(),
            final(self)@ == old(self)@.set_dec_modes(params_view(params), 0, enable),
    {
        let ghost p = params_view(params);
        let mut i: usize = 0;
        while i < params.len()
            invariant
                self.wf(),
                p == params_view(params),
                params_wf(p),
                0 <= i <= p.len(),
                self@.set_dec_modes(p, i as int, enable) == old(self)@.set_dec_modes(p, 0, enable),
            decreases p.len() - i,
        {
            assert(p[i as int] == params@[i as int]@);
            let m = params[i][0] as usize;
            self.set_dec_mode(m, enable);
            i = i + 1;
        }
    }


    /// The bytes to send for pasted text; the screen shown scrolls to the bottom.
    pub fn paste_bytes(&mut self, text: &[u8]) -> (r: Vec<u8>)
        requires
            old(self).wf(),
        ensures
            final(self).wf(),
            final(self)@ == old(self)@.to_bottom(),
            r@ == paste_frame(old(self)@.mode, text@),
    {
        self.active_grid_mut().scroll_to_bottom();
        let mut out: Vec<u8> = Vec::new();
        if self.mode.contains(TerminalMode::BRACKETED_PASTE) {
            push_bytes(&mut out, &[0x1bu8, 0x5b, 0x32, 0x30, 0x30, 0x7e]);
            push_bytes(&mut out, text);
            push_bytes(&mut out, &[0x1bu8, 0x5b, 0x32, 0x30, 0x31, 0x7e]);
            assert(out@ =~= paste_frame(old(self)@.mode, text@));
        } else {
            push_bytes(&mut out, text);
            assert(out@ =~= text@);
        }
        out
    }

    /// The bytes that a key with modifiers sends, in the current cursor key mode;
    /// when it sends some, the screen shown scrolls to the bottom.
    pub fn key_input(&mut self, modifiers: KeyModifiers, key: NamedKey) -> (r: Option<Vec<u8>>)
        requires
            old(self).wf(),
        ensures
            final(self).wf(),
            match (r, key_bytes(modifiers, key, has_flag(old(self)@.mode, TerminalMode::DECCKM))) {
                (None, None) => final(self)@ == old(self)@,
                (Some(v), Some(b)) => v@ == b && final(self)@ == old(self)@.to_bottom(),
                _ => false,
            },
    {
        let decckm = self.mode.contains(TerminalMode::DECCKM);
        let r = build(modifiers, key, decckm);
        if r.is_some() {
            self.active_grid_mut().scroll_to_bottom();
        }
        r
    }

    /// The focus report to send, if focus reporting is on.
    pub fn focus_report(&self, focused: bool) -> (r: Option<Vec<u8>>)
        ensures
            match (r, focus_bytes(self@.mode, focused)) {
                (None, None) => true,
                (Some(v), Some(b)) => v@ == b,
                _ => false,
            },
    {
        if self.mode.contains(TerminalMode::FOCUS_REPORT) {
            let v = if focused {
                vec![0x1bu8, 0x5b, 0x49]
            } else {
                vec![0x1bu8, 0x5b, 0x4f]
            };
            assert(v@ =~= focus_bytes(self@.mode, focused).unwrap());
            Some(v)
        } else {
            None
        }
    }

    /// Whether mouse events go to the shell rather than to selection.
    pub fn mouse_report_active(&self) -> (r: bool)
        ensures
            r == mouse_reporting(self@.mode),
    {
        self.mode.intersects(TerminalMode::MOUSE_REPORT | TerminalMode::MOUSE_DRAG | TerminalMode::MOUSE_MOTION)
    }

    /// The buffer index of line `row` of the view of the screen shown.
    pub fn viewport_row_to_buffer_index(&self, row: usize) -> (r: usize)
        requires
            self.wf(),
            self@.active().viewport_offset <= self@.active().screen_start(),
            self@.active().screen_start() - self@.active().viewport_offset + row <= usize::MAX,
        ensures
            r == self@.active().screen_start() - self@.active().viewport_offset + row,
    {
        self.active_grid().viewport_row_to_buffer_index(row)
    }

    /// The line of the view of the screen shown that shows buffer line `index`.
    pub fn buffer_index_to_viewport_row(&self, index: usize) -> (r: isize)
        requires
            self.wf(),
            index + self@.active().viewport_offset + self@.active().rows <= isize::MAX,
            self@.active().lines.len() <= isize::MAX,
        ensures
            r == index + self@.active().viewport_offset + self@.active().rows - self@.active().lines.len(),
    {
        self.active_grid().buffer_index_to_viewport_row(index)
    }

    /// The text that the view of the screen shown shows, a newline after each line.
    pub fn dump_visible(&self) -> (r: String)
        requires
            self.wf(),
        ensures
            r@ == visible_text(self@.active()),
    {
        let grid = self.active_grid();
        let start = grid.buffer_len() - grid.grid_rows();
        let offset = grid.viewport_offset();
        let top = if offset < start {
            start - offset
        } else {
            0
        };
        grid.get_text(Point { row: top, col: 0 }, Point { row: top + grid.grid_rows() - 1, col: usize::MAX })
    }

    /// Mutable access to the screen shown.
    fn active_grid_mut(&mut self) -> (r: &mut Grid)
        requires
            old(self).wf(),
        ensures
            r@ == old(self)@.active(),
            r.wf(),
            final(self)@ == old(self)@.with_active(final(r)@),
    {
        if self.mode.contains(TerminalMode::ALT_SCREEN) {
            &mut self.alt_grid
        } else {
            &mut self.grid
        }
    }
}

impl Grid {
    /// What a new grid holds.
    pub open spec fn new_view(rows: nat, cols: nat, max_scrollback: nat) -> GridView {
        GridView {
            lines: crate::grid::blank_lines(rows, cols),
            rows: rows,
            cols: cols,
            max_scrollback: max_scrollback,
            viewport_offset: 0,
            cursor: crate::grid::default_cursor(),
            saved_cursor: crate::grid::default_cursor(),
        }
    }
}


/// The flag that each DEC private mode number sets, 0 for the ones without a flag.
pub open spec fn dec_mode_flag(mode: nat) -> u32 {
    if mode == 1049 {
        TerminalMode::ALT_SCREEN
    } else if mode == 2004 {
        TerminalMode::BRACKETED_PASTE
    } else if mode == 25 {
        TerminalMode::CURSOR_VISIBLE
    } else if mode == 1000 {
        TerminalMode::MOUSE_REPORT
    } else if mode == 1002 {
        TerminalMode::MOUSE_DRAG
    } else if mode == 1003 {
        TerminalMode::MOUSE_MOTION
    } else if mode == 1006 {
        TerminalMode::MOUSE_SGR
    } else if mode == 1004 {
        TerminalMode::FOCUS_REPORT
    } else if mode == 1 {
        TerminalMode::DECCKM
    } else {
        0
    }
}

/// Setting a DEC private mode turns its flag on, resetting it turns it off; at most
/// one of the mouse modes 1000, 1002 and 1003 is on after either.
pub proof fn law_dec_mode_sets_flag(t: TerminalView, mode: nat, enable: bool)
    requires
        dec_mode_flag(mode) != 0,
    ensures
        has_flag(t.set_dec_mode(mode, enable).mode, dec_mode_flag(mode)) == enable,
        (mode == 1000 || mode == 1002 || mode == 1003) ==> {
            let m = t.set_dec_mode(mode, enable).mode;
            m & (TerminalMode::MOUSE_REPORT | TerminalMode::MOUSE_DRAG | TerminalMode::MOUSE_MOTION) == (if enable {
                dec_mode_flag(mode)
            } else {
                0
            })
        },
{
    let m = t.mode;
    if mode == 1049 {
        assert(has_flag(set_bits(m, 1u32, enable), 1u32) == enable) by (bit_vector);
    } else if mode == 2004 {
        assert(has_flag(set_bits(m, 2u32, enable), 2u32) == enable) by (bit_vector);
    } else if mode == 25 {
        assert(has_flag(set_bits(m, 4u32, enable), 4u32) == enable) by (bit_vector);
    } else if mode == 1000 {
        let c = m & !(8u32 | 16u32 | 32u32);
        assert(has_flag(set_bits(c, 8u32, enable), 8u32) == enable) by (bit_vector);
        assert(set_bits(c, 8u32, enable) & (8u32 | 16u32 | 32u32) == (if enable { 8u32 } else { 0u32 })) by (bit_vector)
            requires
                c == m & !(8u32 | 16u32 | 32u32),
        ;
    } else if mode == 1002 {
        let c = m & !(8u32 | 16u32 | 32u32);
        assert(has_flag(set_bits(c, 16u32, enable), 16u32) == enable) by (bit_vector);
        assert(set_bits(c, 16u32, enable) & (8u32 | 16u32 | 32u32) == (if enable { 16u32 } else { 0u32 })) by (bit_vector)
            requires
                c == m & !(8u32 | 16u32 | 32u32),
        ;
    } else if mode == 1003 {
        let c = m & !(8u32 | 16u32 | 32u32);
        assert(has_flag(set_bits(c, 32u32, enable), 32u32) == enable) by (bit_vector);
        assert(set_bits(c, 32u32, enable) & (8u32 | 16u32 | 32u32) == (if enable { 32u32 } else { 0u32 })) by (bit_vector)
            requires
                c == m & !(8u32 | 16u32 | 32u32),
        ;
    } else if mode == 1006 {
        assert(has_flag(set_bits(m, 64u32, enable), 64u32) == enable) by (bit_vector);
    } else if mode == 1004 {
        assert(has_flag(set_bits(m, 128u32, enable), 128u32) == enable) by (bit_vector);
    } else {
        assert(has_flag(set_bits(m, 256u32, enable), 256u32) == enable) by (bit_vector);
    }
}

/// Entering the alternate screen shows it cleared and leaves the main screen alone;
/// leaving it shows the main screen again.
pub proof fn law_alt_screen(t: TerminalView)
    ensures
        t.set_dec_mode(1049, true).active() == t.alt_grid.clear(),
        t.set_dec_mode(1049, true).grid == t.grid,
        t.set_dec_mode(1049, false).active() == t.grid,
{
    let m = t.mode;
    assert(has_flag(set_bits(m, 1u32, true), 1u32)) by (bit_vector);
    assert(!has_flag(set_bits(m, 1u32, false), 1u32)) by (bit_vector);
}

/// SGR with no parameter, or with 0 alone, resets the template to the blank cell.
pub proof fn law_sgr_reset(t: Cell)
    ensures
        sgr(t, Seq::empty()) == default_cell(),
        sgr(t, seq![seq![0u16]]) == default_cell(),
{
    let p = seq![seq![0u16]];
    assert(sgr_from(default_cell(), p, 1) == default_cell());
}

/// Each SGR attribute code sets its attribute bit, and its reset code clears it again.
pub proof fn law_sgr_set_then_reset(t: Cell, set: u16, reset: u16, bit: u16)
    requires
        (set == 1 && reset == 22 && bit == CellFlags::BOLD) || (set == 2 && reset == 22 && bit == CellFlags::DIM)
            || (set == 3 && reset == 23 && bit == CellFlags::ITALIC) || (set == 4 && reset == 24 && bit
            == CellFlags::UNDERLINE) || (set == 5 && reset == 25 && bit == CellFlags::BLINK) || (set == 7
            && reset == 27 && bit == CellFlags::INVERSE) || (set == 8 && reset == 28 && bit == CellFlags::HIDDEN)
            || (set == 9 && reset == 29 && bit == CellFlags::STRIKEOUT),
    ensures
        sgr(t, seq![seq![set]]).flags.bits & bit == bit,
        sgr(sgr(t, seq![seq![set]]), seq![seq![reset]]).flags.bits & bit == 0,
        sgr(t, seq![seq![set]]).fg == t.fg,
        sgr(t, seq![seq![set]]).bg == t.bg,
        sgr(t, seq![seq![set]]).c == t.c,
{
    let p = seq![seq![set]];
    let q = seq![seq![reset]];
    let t1 = sgr_step(t, p, 0).0;
    assert(sgr_from(t1, p, 1) == t1);
    let t2 = sgr_step(t1, q, 0).0;
    assert(sgr_from(t2, q, 1) == t2);
    let f = t.flags.bits;
    assert((f | bit) & bit == bit) by (bit_vector);
    if reset == 22 {
        assert(((f | bit) & !1u16 & !2u16) & bit == 0) by (bit_vector)
            requires
                bit == 1u16 || bit == 2u16,
        ;
    } else {
        assert(((f | bit) & !bit) & bit == 0) by (bit_vector);
    }
}

/// SGR 30 to 37 and 40 to 47 select the eight normal colours for the foreground and
/// the background, 90 to 97 and 100 to 107 the bright ones, and `38;5;n` and `48;5;n`
/// a palette index.
pub proof fn law_sgr_colors(t: Cell, k: u16, n: u16)
    requires
        k < 8,
    ensures
        sgr(t, seq![seq![(30 + k) as u16]]) == (Cell { fg: Color::Named(named_of(k as int)), ..t }),
        sgr(t, seq![seq![(40 + k) as u16]]) == (Cell { bg: Color::Named(named_of(k as int)), ..t }),
        sgr(t, seq![seq![(90 + k) as u16]]) == (Cell { fg: Color::Named(named_of(k + 8)), ..t }),
        sgr(t, seq![seq![(100 + k) as u16]]) == (Cell { bg: Color::Named(named_of(k + 8)), ..t }),
        sgr(t, seq![seq![38u16], seq![5u16], seq![n]]) == (Cell { fg: Color::Indexed(low_byte(n)), ..t }),
        sgr(t, seq![seq![48u16], seq![5u16], seq![n]]) == (Cell { bg: Color::Indexed(low_byte(n)), ..t }),
{
    let a = seq![seq![(30 + k) as u16]];
    assert(sgr_from(sgr_step(t, a, 0).0, a, 1) == sgr_step(t, a, 0).0);
    let b = seq![seq![(40 + k) as u16]];
    assert(sgr_from(sgr_step(t, b, 0).0, b, 1) == sgr_step(t, b, 0).0);
    let c = seq![seq![(90 + k) as u16]];
    assert(sgr_from(sgr_step(t, c, 0).0, c, 1) == sgr_step(t, c, 0).0);
    let d = seq![seq![(100 + k) as u16]];
    assert(sgr_from(sgr_step(t, d, 0).0, d, 1) == sgr_step(t, d, 0).0);
    let e = seq![seq![38u16], seq![5u16], seq![n]];
    assert(sgr_from(sgr_step(t, e, 0).0, e, 3) == sgr_step(t, e, 0).0);
    let f = seq![seq![48u16], seq![5u16], seq![n]];
    assert(sgr_from(sgr_step(t, f, 0).0, f, 3) == sgr_step(t, f, 0).0);
}

/// A device status report (`ESC [ 6 n`) owes the shell the 1-based cursor position,
/// `ESC [ row ; col R`, and changes nothing else but scrolling to the bottom.
pub proof fn law_status_report(t: TerminalView)
    ensures
        t.csi_dispatch(seq![seq![6u16]], Seq::empty(), false, 'n') == (TerminalView {
            write_back: t.write_back + seq![0x1bu8, 0x5b] + decimal((t.active().cursor.point.row + 1) as nat)
                + seq![0x3bu8] + decimal((t.active().cursor.point.col + 1) as nat) + seq![0x52u8],
            ..t.to_bottom()
        }),
{
    lemma_active(t, GridView { viewport_offset: 0, ..t.active() });
}

/// A sequence to be ignored changes nothing.
pub proof fn law_ignored_sequences(t: TerminalView, params: Seq<Seq<u16>>, inter: Seq<u8>, action: char, byte: u8)
    ensures
        t.csi_dispatch(params, inter, true, action) == t,
        t.esc_dispatch(inter, true, byte) == t,
{
}

/// Printing and escape sequences bring the view back to the bottom.
pub proof fn law_input_scrolls_to_bottom(t: TerminalView, c: char, w: nat, inter: Seq<u8>, byte: u8)
    requires
        t.wf(),
    ensures
        t.print_width(c, w).active().viewport_offset == 0,
        t.esc_dispatch(inter, false, byte).active().viewport_offset == 0,
{
    let b = t.to_bottom();
    lemma_active(t, GridView { viewport_offset: 0, ..t.active() });
    lemma_active(b, b.active().write_char(c, w));
    let g = b.active();
    lemma_active(b, g.reverse_index());
    lemma_active(b, g.save_cursor());
    lemma_active(b, g.restore_cursor());
    let m = b.mode;
    assert(has_flag(m | 0x200u32, 1u32) == has_flag(m, 1u32)) by (bit_vector);
    assert(has_flag(m & !0x200u32, 1u32) == has_flag(m, 1u32)) by (bit_vector);
}

/// Saving the cursor (`ESC 7`) and restoring it (`ESC 8`) brings back the cursor.
pub proof fn law_esc_save_restore(t: TerminalView)
    requires
        t.wf(),
    ensures
        t.esc_dispatch(Seq::empty(), false, 0x37).esc_dispatch(Seq::empty(), false, 0x38).active().cursor
            == t.active().cursor,
{
    let b = t.to_bottom();
    lemma_active(t, GridView { viewport_offset: 0, ..t.active() });
    let s1 = b.with_active(b.active().save_cursor());
    lemma_active(b, b.active().save_cursor());
    let b2 = s1.to_bottom();
    lemma_active(s1, GridView { viewport_offset: 0, ..s1.active() });
    lemma_active(b2, b2.active().restore_cursor());
}

/// Pasted text is sent whole; in bracketed paste mode between the paste markers.
pub proof fn law_paste_frame(mode: u32, text: Seq<u8>)
    ensures
        has_flag(mode, TerminalMode::BRACKETED_PASTE) ==> paste_frame(mode, text).subrange(6, 6 + text.len() as int) == text,
        has_flag(mode, TerminalMode::BRACKETED_PASTE) ==> paste_frame(mode, text).len() == text.len() + 12,
        !has_flag(mode, TerminalMode::BRACKETED_PASTE) ==> paste_frame(mode, text) == text,
{
    if has_flag(mode, TerminalMode::BRACKETED_PASTE) {
        assert(paste_frame(mode, text).subrange(6, 6 + text.len() as int) =~= text);
    }
}

} // verus!

verus! {

/// An extended colour read inside a longer parameter list reads the same as in the
/// list's tail.
proof fn lemma_extend_color_shift(a: Seq<Seq<u16>>, b: Seq<Seq<u16>>, j: int)
    requires
        0 <= j,
    ensures
        extend_color(a + b, a.len() + j).0 == extend_color(b, j).0,
        extend_color(a + b, a.len() + j).1 == extend_color(b, j).1 + a.len(),
{
    let p = a + b;
    let n = a.len() as int;
    if j < b.len() {
        assert(p[n + j] == b[j]);
        if j + 1 < b.len() {
            assert(p[n + j + 1] == b[j + 1]);
        }
        if j + 2 < b.len() {
            assert(p[n + j + 2] == b[j + 2]);
        }
        if j + 3 < b.len() {
            assert(p[n + j + 3] == b[j + 3]);
        }
    }
}

/// One SGR code read inside a longer parameter list acts as in the list's tail.
proof fn lemma_sgr_step_shift(t: Cell, a: Seq<Seq<u16>>, b: Seq<Seq<u16>>, j: int)
    requires
        0 <= j < b.len(),
    ensures
        sgr_step(t, a + b, a.len() + j).0 == sgr_step(t, b, j).0,
        sgr_step(t, a + b, a.len() + j).1 == sgr_step(t, b, j).1 + a.len(),
{
    assert((a + b)[a.len() + j] == b[j]);
    lemma_extend_color_shift(a, b, j + 1);
}

/// The SGR codes of a list's tail act as they do on the tail alone.
proof fn lemma_sgr_from_shift(t: Cell, a: Seq<Seq<u16>>, b: Seq<Seq<u16>>, j: int)
    requires
        0 <= j,
    ensures
        sgr_from(t, a + b, a.len() + j) == sgr_from(t, b, j),
    decreases b.len() - j,
{
    if j < b.len() {
        lemma_sgr_step_shift(t, a, b, j);
        let (t2, next) = sgr_step(t, b, j);
        if next > j {
            lemma_sgr_from_shift(t2, a, b, next);
        }
    }
}

/// An extended colour group (`38;2;r;g;b`, `48;2;r;g;b`, `38;5;n`, `48;5;n`) sets its
/// colour, and the codes after it are still applied, as if they followed alone.
pub proof fn law_sgr_after_extended_color(t: Cell, r: u8, g: u8, b: u8, n: u8, rest: Seq<Seq<u16>>)
    requires
        rest.len() > 0,
    ensures
        sgr(t, seq![seq![38u16], seq![2u16], seq![r as u16], seq![g as u16], seq![b as u16]] + rest)
            == sgr(Cell { fg: Color::Rgb(r, g, b), ..t }, rest),
        sgr(t, seq![seq![48u16], seq![2u16], seq![r as u16], seq![g as u16], seq![b as u16]] + rest)
            == sgr(Cell { bg: Color::Rgb(r, g, b), ..t }, rest),
        sgr(t, seq![seq![38u16], seq![5u16], seq![n as u16]] + rest) == sgr(Cell { fg: Color::Indexed(n), ..t }, rest),
        sgr(t, seq![seq![48u16], seq![5u16], seq![n as u16]] + rest) == sgr(Cell { bg: Color::Indexed(n), ..t }, rest),
{
    let fg_rgb = seq![seq![38u16], seq![2u16], seq![r as u16], seq![g as u16], seq![b as u16]];
    let bg_rgb = seq![seq![48u16], seq![2u16], seq![r as u16], seq![g as u16], seq![b as u16]];
    let fg_idx = seq![seq![38u16], seq![5u16], seq![n as u16]];
    let bg_idx = seq![seq![48u16], seq![5u16], seq![n as u16]];
    assert(low_byte(r as u16) == r && low_byte(g as u16) == g && low_byte(b as u16) == b && low_byte(n as u16) == n);
    let p1 = fg_rgb + rest;
    assert(p1[0] == fg_rgb[0] && p1[1] == fg_rgb[1] && p1[2] == fg_rgb[2] && p1[3] == fg_rgb[3] && p1[4] == fg_rgb[4]);
    lemma_sgr_from_shift(Cell { fg: Color::Rgb(r, g, b), ..t }, fg_rgb, rest, 0);
    let p2 = bg_rgb + rest;
    assert(p2[0] == bg_rgb[0] && p2[1] == bg_rgb[1] && p2[2] == bg_rgb[2] && p2[3] == bg_rgb[3] && p2[4] == bg_rgb[4]);
    lemma_sgr_from_shift(Cell { bg: Color::Rgb(r, g, b), ..t }, bg_rgb, rest, 0);
    let p3 = fg_idx + rest;
    assert(p3[0] == fg_idx[0] && p3[1] == fg_idx[1] && p3[2] == fg_idx[2]);
    lemma_sgr_from_shift(Cell { fg: Color::Indexed(n), ..t }, fg_idx, rest, 0);
    let p4 = bg_idx + rest;
    assert(p4[0] == bg_idx[0] && p4[1] == bg_idx[1] && p4[2] == bg_idx[2]);
    lemma_sgr_from_shift(Cell { bg: Color::Indexed(n), ..t }, bg_idx, rest, 0);
}

} // verus!
