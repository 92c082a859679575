use vstd::prelude::*;

use vstd::string::StringSliceAdditionalSpecFns;

use crate::cell::Point;
use crate::grid::{min, snap_back, snap_forward, Grid, GridView};
use crate::input::{build, control_byte, ctrl_byte, key_bytes, KeyModifiers, NamedKey};
use crate::mouse::{sgr_bytes, wheel_button, x10_bytes, x10_fits, MouseButton, MouseEvent, MouseEventKind};
use crate::selection::{next_kind_of, Selection, SelectionKind};
use crate::terminal::{has_flag, mouse_reporting, TerminalMode};

verus! {

/// Where the mouse pointer is, in cells, before it is kept on the screen: the cell its
/// position falls in, and the cell boundary nearest to it.
#[derive(Clone, Copy, Debug, PartialEq, Eq, Structural)]
pub struct PointerCell {
    pub row: usize,
    pub col: usize,
    pub boundary_col: usize,
}

/// What the mouse is doing to the window: the selection being made, and the button held.
#[derive(Clone, Copy, Debug, PartialEq, Eq, Structural)]
pub struct PointerState {
    pub selection: Option<Selection>,
    pub mouse_state: MouseButton,
}

/// What a mouse event asks of the window: bytes to send to the shell, whether a click
/// started a selection (its time is to be kept), and whether to redraw.
#[derive(Clone, Debug)]
pub struct MouseOutcome {
    pub report: Option<Vec<u8>>,
    pub clicked: bool,
    pub redraw: bool,
}

/// The cell under the pointer, kept on the screen.
pub open spec fn pointer_cell(g: GridView, p: PointerCell) -> Point {
    Point { row: min(p.row as int, g.rows - 1) as usize, col: min(p.col as int, g.cols - 1) as usize }
}

/// The cell boundary nearest the pointer, kept on the screen (up to just past the last
/// column).
pub open spec fn pointer_boundary(g: GridView, p: PointerCell) -> Point {
    Point { row: min(p.row as int, g.rows - 1) as usize, col: min(p.boundary_col as int, g.cols as int) as usize }
}

/// A screen position as a buffer position, by the line of the view it is on.
pub open spec fn buffer_point(g: GridView, p: Point) -> Point {
    Point { row: g.viewport_to_buffer(p.row as int) as usize, col: p.col }
}

/// A selection with both ends snapped to whole wide characters.
pub open spec fn snapped(g: GridView, s: Selection) -> Selection {
    Selection { anchor: snap_back(g.lines, s.anchor), end: snap_forward(g.lines, s.end), ..s }
}

/// The report of a mouse event in the encoding that the mode asks for.
pub open spec fn report_bytes(e: MouseEvent, m: KeyModifiers, mode: u32) -> Seq<u8> {
    if has_flag(mode, TerminalMode::MOUSE_SGR) {
        sgr_bytes(e, m)
    } else {
        x10_bytes(e, m)
    }
}

/// Whether a report at the pointer cell can be encoded: the legacy encoding carries
/// coordinates only up to 222.
pub open spec fn report_fits(g: GridView, p: PointerCell, mode: u32) -> bool {
    !has_flag(mode, TerminalMode::MOUSE_SGR) ==> x10_fits(
        MouseEvent {
            kind: MouseEventKind::Press,
            button: MouseButton::Left,
            col: pointer_cell(g, p).col,
            row: pointer_cell(g, p).row,
            shift: false,
            alt: false,
            ctrl: false,
        },
    )
}

/// The grid as the pointer handlers need it: well formed, its view no further back
/// than its scrollback.
pub open spec fn pointer_grid_ok(g: &Grid) -> bool {
    g.wf() && g@.viewport_offset <= g@.screen_start()
}

/// A button press or release (`pressed`, `button`). While the shell takes mouse
/// reports and shift is not held, the event is reported and the selection dropped.
/// Otherwise a press starts a selection at the pointer's boundary, of the kind after
/// the last one for a click in quick succession on a selection (`quick`), else of
/// characters; the window redraws. Either way the button is then the one held (none
/// after a release).
pub open spec fn mouse_input_of(
    st: PointerState,
    g: GridView,
    mode: u32,
    m: KeyModifiers,
    p: PointerCell,
    pressed: bool,
    button: MouseButton,
    quick: bool,
) -> (PointerState, Option<Seq<u8>>, bool, bool) {
    let b = if pressed {
        button
    } else {
        MouseButton::NoButton
    };
    if mouse_reporting(mode) && !m.shift {
        let cell = pointer_cell(g, p);
        let e = MouseEvent {
            kind: if b != MouseButton::NoButton {
                MouseEventKind::Press
            } else {
                MouseEventKind::Release
            },
            button: b,
            col: cell.col,
            row: cell.row,
            shift: m.shift,
            alt: m.alt,
            ctrl: m.ctrl,
        };
        (PointerState { selection: None, mouse_state: b }, Some(report_bytes(e, m, mode)), false, false)
    } else {
        let point = buffer_point(g, pointer_boundary(g, p));
        if pressed {
            let kind = match st.selection {
                Some(s) => if quick {
                    next_kind_of(s.kind)
                } else {
                    SelectionKind::Character
                },
                None => SelectionKind::Character,
            };
            let sel = snapped(g, Selection { anchor: point, end: point, kind: kind });
            (PointerState { selection: Some(sel), mouse_state: b }, None, true, true)
        } else {
            (PointerState { mouse_state: b, ..st }, None, false, true)
        }
    }
}

/// Whether a pointer motion is reported to the shell: no selection is being dragged,
/// and the shell takes all motion, or drags while a button is held.
pub open spec fn motion_reported(st: PointerState, mode: u32) -> bool {
    !(st.selection is Some && st.mouse_state != MouseButton::NoButton) && (has_flag(mode, TerminalMode::MOUSE_MOTION) || (
    has_flag(mode, TerminalMode::MOUSE_DRAG) && st.mouse_state != MouseButton::NoButton))
}

/// A pointer motion. While a button is held over a selection, the selection's end
/// follows the pointer (its cell for a word selection, its boundary otherwise) and the
/// window redraws. Otherwise, when the shell takes all motion, or drags while a button
/// is held, the motion is reported.
pub open spec fn cursor_moved_of(st: PointerState, g: GridView, mode: u32, m: KeyModifiers, p: PointerCell) -> (
    PointerState,
    Option<Seq<u8>>,
    bool,
) {
    match st.selection {
        Some(s) if st.mouse_state != MouseButton::NoButton => {
            let cell = if s.kind == SelectionKind::Word {
                pointer_cell(g, p)
            } else {
                pointer_boundary(g, p)
            };
            let sel = snapped(g, Selection { end: buffer_point(g, cell), ..s });
            (PointerState { selection: Some(sel), ..st }, None, true)
        },
        _ => if has_flag(mode, TerminalMode::MOUSE_MOTION) || (has_flag(mode, TerminalMode::MOUSE_DRAG)
            && st.mouse_state != MouseButton::NoButton) {
            let cell = pointer_cell(g, p);
            let e = MouseEvent {
                kind: MouseEventKind::Motion,
                button: st.mouse_state,
                col: cell.col,
                row: cell.row,
                shift: m.shift,
                alt: m.alt,
                ctrl: m.ctrl,
            };
            (st, Some(report_bytes(e, m, mode)), false)
        } else {
            (st, None, false)
        },
    }
}

/// Whether a report at the pointer cell can be encoded (see `report_fits`).
pub fn report_fits_at(grid: &Grid, mode: &TerminalMode, pointer: PointerCell) -> (r: bool)
    requires
        grid.wf(),
    ensures
        r == report_fits(grid@, pointer, mode.bits),
{
    if mode.contains(TerminalMode::MOUSE_SGR) {
        return true;
    }
    let cell = grid.cursor_cell(pointer.row, pointer.col);
    cell.col % 256 + 33 <= 255 && cell.row % 256 + 33 <= 255
}

impl PointerState {
    /// No selection and no button held.
    pub fn new() -> (r: PointerState)
        ensures
            r.selection is None,
            r.mouse_state == MouseButton::NoButton,
    {
        PointerState { selection: None, mouse_state: MouseButton::NoButton }
    }

    /// Whether a pointer motion now is reported to the shell (see `motion_reported`).
    pub fn reports_motion(&self, mode: &TerminalMode) -> (r: bool)
        ensures
            r == motion_reported(*self, mode.bits),
    {
        let dragging = self.selection.is_some() && self.mouse_state.is_pressed();
        !dragging && (mode.contains(TerminalMode::MOUSE_MOTION) || (mode.contains(TerminalMode::MOUSE_DRAG)
            && self.mouse_state.is_pressed()))
    }

    /// Snaps the selection to whole wide characters of `grid`.
    pub fn snap_selection(&mut self, grid: &Grid)
        ensures
            final(self).mouse_state == old(self).mouse_state,
            final(self).selection == (match old(self).selection {
                Some(s) => Some(snapped(grid@, s)),
                None => None,
            }),
    {
        match self.selection {
            Some(s) => {
                let (anchor, end) = grid.snap_selection(s.anchor, s.end);
                self.selection = Some(Selection { anchor, end, kind: s.kind });
            },
            None => {},
        }
    }

    /// The buffer position of a screen position, by the line of the view it is on.
    fn to_buffer(grid: &Grid, p: Point) -> (r: Point)
        requires
            pointer_grid_ok(grid),
            p.row < grid@.rows,
        ensures
            r == buffer_point(grid@, p),
    {
        Point { row: grid.viewport_row_to_buffer_index(p.row), col: p.col }
    }

    /// Handles a button press or release: see `mouse_input_of`.
    pub fn mouse_input(
        &mut self,
        grid: &Grid,
        mode: &TerminalMode,
        modifiers: KeyModifiers,
        pointer: PointerCell,
        pressed: bool,
        button: MouseButton,
        quick: bool,
    ) -> (r: MouseOutcome)
        requires
            pointer_grid_ok(grid),
            mouse_reporting(mode.bits) && !modifiers.shift ==> report_fits(grid@, pointer, mode.bits),
        ensures
            ({
                let (st, report, clicked, redraw) = mouse_input_of(
                    *old(self),
                    grid@,
                    mode.bits,
                    modifiers,
                    pointer,
                    pressed,
                    button,
                    quick,
                );
                &&& *final(self) == st
                &&& r.clicked == clicked
                &&& r.redraw == redraw
                &&& match (r.report, report) {
                    (Some(v), Some(b)) => v@ == b,
                    (None, None) => true,
                    _ => false,
                }
            }),
    {
        let b = if pressed {
            button
        } else {
            MouseButton::NoButton
        };
        let sgr = mode.contains(TerminalMode::MOUSE_SGR);
        if mode.intersects(TerminalMode::MOUSE_REPORT | TerminalMode::MOUSE_DRAG | TerminalMode::MOUSE_MOTION)
            && !modifiers.shift {
            let cell = grid.cursor_cell(pointer.row, pointer.col);
            let e = MouseEvent::button_event(b, cell, modifiers);
            let bytes = e.encode_mouse(&modifiers, sgr);
            self.selection = None;
            self.mouse_state = b;
            MouseOutcome { report: Some(bytes), clicked: false, redraw: false }
        } else {
            let cell = grid.cursor_boundary_cell(pointer.row, pointer.boundary_col);
            let point = Self::to_buffer(grid, cell);
            let clicked = pressed;
            if pressed {
                let kind = match self.selection {
                    Some(s) => if quick {
                        s.kind.next()
                    } else {
                        SelectionKind::Character
                    },
                    None => SelectionKind::Character,
                };
                self.selection = Some(Selection { anchor: point, end: point, kind });
                self.snap_selection(grid);
            }
            self.mouse_state = b;
            MouseOutcome { report: None, clicked, redraw: true }
        }
    }

    /// Handles a pointer motion: see `cursor_moved_of`. Returns the report to send and
    /// whether to redraw.
    pub fn cursor_moved(&mut self, grid: &Grid, mode: &TerminalMode, modifiers: KeyModifiers, pointer: PointerCell) -> (r: (
        Option<Vec<u8>>,
        bool,
    ))
        requires
            pointer_grid_ok(grid),
            motion_reported(*old(self), mode.bits) ==> report_fits(grid@, pointer, mode.bits),
        ensures
            ({
                let (st, report, redraw) = cursor_moved_of(*old(self), grid@, mode.bits, modifiers, pointer);
                &&& *final(self) == st
                &&& r.1 == redraw
                &&& match (r.0, report) {
                    (Some(v), Some(b)) => v@ == b,
                    (None, None) => true,
                    _ => false,
                }
            }),
    {
        match self.selection {
            Some(s) => {
                if self.mouse_state.is_pressed() {
                    let cell = if s.kind == SelectionKind::Word {
                        grid.cursor_cell(pointer.row, pointer.col)
                    } else {
                        grid.cursor_boundary_cell(pointer.row, pointer.boundary_col)
                    };
                    let end = Self::to_buffer(grid, cell);
                    self.selection = Some(Selection { anchor: s.anchor, end, kind: s.kind });
                    self.snap_selection(grid);
                    return (None, true);
                }
            },
            None => {},
        }
        if mode.contains(TerminalMode::MOUSE_MOTION) || (mode.contains(TerminalMode::MOUSE_DRAG)
            && self.mouse_state.is_pressed()) {
            let cell = grid.cursor_cell(pointer.row, pointer.col);
            let e = MouseEvent::motion_event(self.mouse_state, cell, modifiers);
            let sgr = mode.contains(TerminalMode::MOUSE_SGR);
            (Some(e.encode_mouse(&modifiers, sgr)), false)
        } else {
            (None, false)
        }
    }
}

/// What a wheel turn asks of the window.
#[derive(Clone, Debug)]
pub enum WheelAction {
    /// Send these bytes to the shell, this many times.
    Report(Vec<u8>, u32),
    /// Scroll the view back by this many lines (forward when negative).
    Scroll(isize),
    /// Nothing, not even a redraw.
    Ignore,
}

/// A wheel turn by `delta` lines (up when positive): while the shell takes mouse
/// reports, one wheel button report per line, none for no turn; otherwise the view
/// scrolls by three lines per line.
pub open spec fn wheel_of(g: GridView, mode: u32, m: KeyModifiers, p: PointerCell, delta: int) -> (int, Seq<u8>, int) {
    // (kind: 0 report, 1 scroll, 2 nothing; bytes; count or lines)
    if mouse_reporting(mode) {
        if delta == 0 {
            (2, seq![], 0)
        } else {
            let cell = pointer_cell(g, p);
            let e = MouseEvent {
                kind: MouseEventKind::Press,
                button: if delta < 0 {
                    MouseButton::ScrollDown
                } else {
                    MouseButton::ScrollUp
                },
                col: cell.col,
                row: cell.row,
                shift: m.shift,
                alt: m.alt,
                ctrl: m.ctrl,
            };
            (0, report_bytes(e, m, mode), if delta < 0 {
                -delta
            } else {
                delta
            })
        }
    } else {
        (1, seq![], 3 * delta)
    }
}

/// Handles a wheel turn by `delta` lines: see `wheel_of`.
pub fn mouse_wheel(grid: &Grid, mode: &TerminalMode, modifiers: KeyModifiers, pointer: PointerCell, delta: i32) -> (r:
    WheelAction)
    requires
        grid.wf(),
        mouse_reporting(mode.bits) && delta != 0 ==> report_fits(grid@, pointer, mode.bits),
        !mouse_reporting(mode.bits) ==> -0x2aaa_aaaa <= delta <= 0x2aaa_aaaa,
    ensures
        ({
            let (kind, bytes, n) = wheel_of(grid@, mode.bits, modifiers, pointer, delta as int);
            match r {
                WheelAction::Report(v, count) => kind == 0 && v@ == bytes && count == n,
                WheelAction::Scroll(lines) => kind == 1 && lines == n,
                WheelAction::Ignore => kind == 2,
            }
        }),
{
    if mode.intersects(TerminalMode::MOUSE_REPORT | TerminalMode::MOUSE_DRAG | TerminalMode::MOUSE_MOTION) {
        match wheel_button(delta) {
            None => WheelAction::Ignore,
            Some(button) => {
                let cell = grid.cursor_cell(pointer.row, pointer.col);
                let e = MouseEvent::button_event(button, cell, modifiers);
                let sgr = mode.contains(TerminalMode::MOUSE_SGR);
                let count: u32 = if delta < 0 {
                    (-(delta + 1)) as u32 + 1
                } else {
                    delta as u32
                };
                WheelAction::Report(e.encode_mouse(&modifiers, sgr), count)
            },
        }
    } else {
        WheelAction::Scroll((delta * 3) as isize)
    }
}

/// What a key press asks of the window.
#[derive(Clone, Debug)]
pub enum KeyAction {
    /// Copy the selected text to the clipboard and drop the selection.
    Copy,
    /// Paste the clipboard's text.
    Paste,
    /// Send these bytes to the shell.
    Send(Vec<u8>),
    /// Nothing.
    Ignore,
}

/// A key event: whether it is a press, the physical C and V keys (copy and paste with
/// control and shift), the named key it is (if any), the first character of the
/// character key it is (if any), and the text it types (if any), as UTF-8 bytes.
pub struct KeyInput<'a> {
    pub pressed: bool,
    pub copy_key: bool,
    pub paste_key: bool,
    pub named: Option<NamedKey>,
    pub character: Option<char>,
    pub text: Option<&'a str>,
}

/// A key press: control-shift-C copies, control-shift-V pastes; a named key sends its
/// sequence when it has one; otherwise with control a character key sends its control
/// byte (nothing when it has none), and any other key sends the text it types; alt puts
/// ESC before what a character key or text sends. A release does nothing.
pub open spec fn key_outcome(
    m: KeyModifiers,
    decckm: bool,
    pressed: bool,
    copy_key: bool,
    paste_key: bool,
    named: Option<NamedKey>,
    character: Option<char>,
    text: Option<Seq<u8>>,
) -> (int, Seq<u8>) {
    // (kind: 0 nothing, 1 copy, 2 paste, 3 send; bytes)
    let esc: Seq<u8> = if m.alt {
        seq![0x1bu8]
    } else {
        seq![]
    };
    if !pressed {
        (0, seq![])
    } else if m.ctrl && m.shift && copy_key {
        (1, seq![])
    } else if m.ctrl && m.shift && paste_key {
        (2, seq![])
    } else if named matches Some(k) && key_bytes(m, k, decckm) is Some {
        (3, key_bytes(m, named.unwrap(), decckm).unwrap())
    } else if m.ctrl && character is Some {
        match ctrl_byte(character.unwrap()) {
            Some(b) => (3, esc.push(b)),
            None => (0, seq![]),
        }
    } else {
        match text {
            Some(t) => (3, esc + t),
            None => (0, seq![]),
        }
    }
}

/// Decides what a key event does: see `key_outcome`. `decckm` is application cursor
/// key mode.
pub fn key_action(modifiers: KeyModifiers, decckm: bool, key: &KeyInput) -> (r: KeyAction)
    ensures
        ({
            let (kind, bytes) = key_outcome(
                modifiers,
                decckm,
                key.pressed,
                key.copy_key,
                key.paste_key,
                key.named,
                key.character,
                match key.text {
                    Some(t) => Some(t.spec_bytes()),
                    None => None,
                },
            );
            match r {
                KeyAction::Ignore => kind == 0,
                KeyAction::Copy => kind == 1,
                KeyAction::Paste => kind == 2,
                KeyAction::Send(v) => kind == 3 && v@ == bytes,
            }
        }),
{
    if !key.pressed {
        return KeyAction::Ignore;
    }
    if modifiers.ctrl && modifiers.shift && key.copy_key {
        return KeyAction::Copy;
    }
    if modifiers.ctrl && modifiers.shift && key.paste_key {
        return KeyAction::Paste;
    }
    match key.named {
        Some(k) => match build(modifiers, k, decckm) {
            Some(bytes) => {
                return KeyAction::Send(bytes);
            },
            None => {},
        },
        None => {},
    }
    let mut out: Vec<u8> = Vec::new();
    if modifiers.alt {
        out.push(0x1b);
    }
    let ghost esc = out@;
    if modifiers.ctrl && key.character.is_some() {
        match control_byte(key.character.unwrap()) {
            Some(b) => {
                out.push(b);
                KeyAction::Send(out)
            },
            None => KeyAction::Ignore,
        }
    } else {
        match key.text {
            Some(t) => {
                crate::text::push_bytes(&mut out, t.as_bytes());
                assert(out@ =~= esc + t.spec_bytes());
                KeyAction::Send(out)
            },
            None => KeyAction::Ignore,
        }
    }
}

} // verus!

verus! {

/// A click or drag in selection mode puts the selection's end on the buffer line that
/// the pointer's line of the view shows: as many lines back from the screen's top as
/// the view is scrolled, plus the pointer's line (the last one when below the screen).
/// A click starts the selection there, at the cell boundary nearest the pointer (or one
/// column off, to take in a whole wide character), of the next kind for a quick click
/// on a selection and of characters otherwise; a drag keeps where it started.
pub proof fn law_selection_on_shown_line(
    st: PointerState,
    g: GridView,
    mode: u32,
    m: KeyModifiers,
    p: PointerCell,
    button: MouseButton,
    quick: bool,
)
    requires
        g.wf(),
        g.viewport_offset <= g.screen_start(),
        !(mouse_reporting(mode) && !m.shift),
    ensures
        ({
            let shown = g.lines.len() - g.rows - g.viewport_offset + (if p.row < g.rows {
                p.row as int
            } else {
                g.rows - 1
            });
            let clicked = mouse_input_of(st, g, mode, m, p, true, button, quick).0.selection;
            &&& clicked is Some
            &&& clicked.unwrap().anchor.row == shown
            &&& clicked.unwrap().end.row == shown
            &&& ({
                let b = if p.boundary_col < g.cols { p.boundary_col as int } else { g.cols as int };
                &&& clicked.unwrap().anchor.col == b || clicked.unwrap().anchor.col + 1 == b
                &&& clicked.unwrap().end.col == b || clicked.unwrap().end.col == b + 1
                &&& clicked.unwrap().kind == (if quick && st.selection is Some {
                    next_kind_of(st.selection.unwrap().kind)
                } else {
                    SelectionKind::Character
                })
            })
            &&& g.buffer_to_viewport(shown) == (if p.row < g.rows { p.row as int } else { g.rows - 1 })
            &&& (st.selection is Some && st.mouse_state != MouseButton::NoButton) ==> {
                let dragged = cursor_moved_of(st, g, mode, m, p).0.selection;
                &&& dragged is Some
                &&& dragged.unwrap().end.row == shown
                &&& dragged.unwrap().anchor == snap_back(g.lines, st.selection.unwrap().anchor)
            }
        }),
{
}

} // verus!
