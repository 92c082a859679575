use vstd::prelude::*;

use crate::cell::Point;
use crate::input::KeyModifiers;
use crate::text::{decimal, push_decimal};

verus! {

/// A mouse button, `NoButton` when no button is held.
#[derive(Clone, Copy, Debug, PartialEq, Eq, Structural)]
pub enum MouseButton {
    Left,
    Middle,
    Right,
    NoButton,
    ScrollUp,
    ScrollDown,
}

impl Default for MouseButton {
    fn default() -> (r: MouseButton)
        ensures
            r == MouseButton::NoButton,
    {
        MouseButton::NoButton
    }
}

impl MouseButton {
    /// Whether a button is held.
    pub fn is_pressed(self) -> (r: bool)
        ensures
            r == (self != MouseButton::NoButton),
    {
        !matches!(self, MouseButton::NoButton)
    }
}

/// What happened to the mouse.
#[derive(Clone, Copy, Debug, PartialEq, Eq, Structural)]
pub enum MouseEventKind {
    Press,
    Release,
    Motion,
}

/// A mouse event at a screen cell (0-based), with the modifiers held.
#[derive(Clone, Copy, Debug, PartialEq, Eq, Structural)]
pub struct MouseEvent {
    pub kind: MouseEventKind,
    pub button: MouseButton,
    pub col: usize,
    pub row: usize,
    pub shift: bool,
    pub alt: bool,
    pub ctrl: bool,
}

/// The base code of each button in a mouse report.
pub open spec fn button_base(b: MouseButton) -> nat {
    match b {
        MouseButton::Left => 0,
        MouseButton::Middle => 1,
        MouseButton::Right => 2,
        MouseButton::NoButton => 3,
        MouseButton::ScrollUp => 64,
        MouseButton::ScrollDown => 65,
    }
}

/// The button code of a mouse report: the button's base code, plus 4 for shift, 8 for
/// alt, 16 for control, 32 for motion.
pub open spec fn button_code(e: MouseEvent, m: KeyModifiers) -> nat {
    button_base(e.button) + (if m.shift { 4nat } else { 0 }) + (if m.alt { 8nat } else { 0 }) + (if m.ctrl {
        16nat
    } else {
        0
    }) + (if e.kind == MouseEventKind::Motion { 32nat } else { 0 })
}

/// Whether the legacy encoding can carry the event: its row and column bytes fit.
pub open spec fn x10_fits(e: MouseEvent) -> bool {
    e.col % 256 + 33 <= 255 && e.row % 256 + 33 <= 255
}

/// The legacy report `ESC [ M b x y`: each value plus 32 (coordinates 1-based, taken
/// modulo 256), a release reported with its low two button bits set.
pub open spec fn x10_bytes(e: MouseEvent, m: KeyModifiers) -> Seq<u8> {
    let code = button_code(e, m) as u8;
    let b = if e.kind == MouseEventKind::Release {
        (code & !3u8) | 3u8
    } else {
        code
    };
    seq![0x1bu8, 0x5b, 0x4d, (b + 32) as u8, (e.col % 256 + 33) as u8, (e.row % 256 + 33) as u8]
}

/// The SGR report `ESC [ < b ; x ; y M` (or `m` for a release), coordinates 1-based.
pub open spec fn sgr_bytes(e: MouseEvent, m: KeyModifiers) -> Seq<u8> {
    seq![0x1bu8, 0x5b, 0x3c] + decimal(button_code(e, m)) + seq![0x3bu8] + decimal((e.col + 1) as nat) + seq![
        0x3bu8,
    ] + decimal((e.row + 1) as nat) + seq![
        if e.kind == MouseEventKind::Release {
            0x6du8
        } else {
            0x4du8
        },
    ]
}

impl MouseEvent {
    /// A press of `button` (or a release when no button is held) at `point`.
    pub fn button_event(button: MouseButton, point: Point, modifiers: KeyModifiers) -> (r: MouseEvent)
        ensures
            r == (MouseEvent {
                kind: if button != MouseButton::NoButton {
                    MouseEventKind::Press
                } else {
                    MouseEventKind::Release
                },
                button: button,
                col: point.col,
                row: point.row,
                shift: modifiers.shift,
                alt: modifiers.alt,
                ctrl: modifiers.ctrl,
            }),
    {
        MouseEvent {
            kind: if button.is_pressed() {
                MouseEventKind::Press
            } else {
                MouseEventKind::Release
            },
            button,
            col: point.col,
            row: point.row,
            shift: modifiers.shift,
            alt: modifiers.alt,
            ctrl: modifiers.ctrl,
        }
    }

    /// A motion to `point` with `button` held.
    pub fn motion_event(button: MouseButton, point: Point, modifiers: KeyModifiers) -> (r: MouseEvent)
        ensures
            r == (MouseEvent {
                kind: MouseEventKind::Motion,
                button: button,
                col: point.col,
                row: point.row,
                shift: modifiers.shift,
                alt: modifiers.alt,
                ctrl: modifiers.ctrl,
            }),
    {
        MouseEvent {
            kind: MouseEventKind::Motion,
            button,
            col: point.col,
            row: point.row,
            shift: modifiers.shift,
            alt: modifiers.alt,
            ctrl: modifiers.ctrl,
        }
    }

    /// The button code of the report.
    fn encode_button(&self, modifiers: &KeyModifiers) -> (r: u8)
        ensures
            r == button_code(*self, *modifiers),
    {
        let mut code: u8 = match self.button {
            MouseButton::Left => 0,
            MouseButton::Middle => 1,
            MouseButton::Right => 2,
            MouseButton::NoButton => 3,
            MouseButton::ScrollUp => 64,
            MouseButton::ScrollDown => 65,
        };
        if modifiers.shift {
            code = code + 4;
        }
        if modifiers.alt {
            code = code + 8;
        }
        if modifiers.ctrl {
            code = code + 16;
        }
        if matches!(self.kind, MouseEventKind::Motion) {
            code = code + 32;
        }
        code
    }

    /// The legacy report.
    fn encode_x10(&self, modifiers: &KeyModifiers) -> (r: Vec<u8>)
        requires
            x10_fits(*self),
        ensures
            r@ == x10_bytes(*self, *modifiers),
    {
        let code = self.encode_button(modifiers);
        let button = if matches!(self.kind, MouseEventKind::Release) {
            (code & !3u8) | 3u8
        } else {
            code
        };
        assert(button <= 127) by (bit_vector)
            requires
                code <= 125,
                button == ((code & !3u8) | 3u8) || button == code,
        ;
        let col = (self.col % 256) as u8;
        let row = (self.row % 256) as u8;
        let v = vec![0x1bu8, 0x5b, 0x4d, button + 32, col + 1 + 32, row + 1 + 32];
        assert(v@ =~= x10_bytes(*self, *modifiers));
        v
    }

    /// The SGR report.
    fn encode_sgr(&self, modifiers: &KeyModifiers) -> (r: Vec<u8>)
        requires
            self.col < usize::MAX,
            self.row < usize::MAX,
        ensures
            r@ == sgr_bytes(*self, *modifiers),
    {
        let button = self.encode_button(modifiers);
        let terminator: u8 = if matches!(self.kind, MouseEventKind::Release) {
            0x6d
        } else {
            0x4d
        };
        let mut v: Vec<u8> = vec![0x1bu8, 0x5b, 0x3c];
        push_decimal(&mut v, button as usize);
        v.push(0x3b);
        push_decimal(&mut v, self.col + 1);
        v.push(0x3b);
        push_decimal(&mut v, self.row + 1);
        v.push(terminator);
        assert(v@ =~= sgr_bytes(*self, *modifiers));
        v
    }

    /// The report of this event to the shell, in the SGR encoding or the legacy one.
    pub fn encode_mouse(&self, modifiers: &KeyModifiers, sgr_mode: bool) -> (r: Vec<u8>)
        requires
            sgr_mode ==> self.col < usize::MAX && self.row < usize::MAX,
            !sgr_mode ==> x10_fits(*self),
        ensures
            r@ == (if sgr_mode {
                sgr_bytes(*self, *modifiers)
            } else {
                x10_bytes(*self, *modifiers)
            }),
    {
        if sgr_mode {
            self.encode_sgr(modifiers)
        } else {
            self.encode_x10(modifiers)
        }
    }
}

/// The wheel button of a scroll by `delta` lines: up when positive, down when negative.
pub open spec fn wheel_button_of(delta: int) -> Option<MouseButton> {
    if delta < 0 {
        Some(MouseButton::ScrollDown)
    } else if delta == 0 {
        None
    } else {
        Some(MouseButton::ScrollUp)
    }
}

/// The wheel button that a scroll by `delta` lines reports, none for no scroll.
pub fn wheel_button(delta: i32) -> (r: Option<MouseButton>)
    ensures
        r == wheel_button_of(delta as int),
{
    if delta < 0 {
        Some(MouseButton::ScrollDown)
    } else if delta == 0 {
        None
    } else {
        Some(MouseButton::ScrollUp)
    }
}


/// A release is reported as such: in the legacy encoding by the low two bits of the
/// button code set, in the SGR encoding by the final `m`.
pub proof fn law_release_reports(e: MouseEvent, m: KeyModifiers)
    requires
        e.kind == MouseEventKind::Release,
    ensures
        ((x10_bytes(e, m)[3] - 32) as u8) & 3u8 == 3u8,
        sgr_bytes(e, m).last() == 0x6du8,
{
    let code = button_code(e, m) as u8;
    assert(button_code(e, m) <= 125);
    let b = (code & !3u8) | 3u8;
    assert(b <= 127 && b & 3u8 == 3u8) by (bit_vector)
        requires
            b == (code & !3u8) | 3u8,
            code <= 125,
    ;
}

} // verus!

verus! {

/// Without modifiers, a press of the left, middle and right buttons reports xterm
/// button codes 0, 1 and 2, and wheel turns up and down 64 and 65: in the legacy
/// encoding as the code plus 32, in the SGR encoding as the code's digits after
/// `ESC [ <`.
pub proof fn law_button_codes(e: MouseEvent)
    requires
        e.kind == MouseEventKind::Press,
    ensures
        ({
            let m = KeyModifiers { shift: false, alt: false, ctrl: false };
            let x = x10_bytes(e, m);
            let s = sgr_bytes(e, m);
            &&& e.button == MouseButton::Left ==> x[3] == 32 && s.subrange(0, 5) == seq![0x1bu8, 0x5b, 0x3c, 0x30, 0x3b]
            &&& e.button == MouseButton::Middle ==> x[3] == 33 && s.subrange(0, 5) == seq![0x1bu8, 0x5b, 0x3c, 0x31, 0x3b]
            &&& e.button == MouseButton::Right ==> x[3] == 34 && s.subrange(0, 5) == seq![0x1bu8, 0x5b, 0x3c, 0x32, 0x3b]
            &&& e.button == MouseButton::ScrollUp ==> x[3] == 96 && s.subrange(0, 6) == seq![0x1bu8, 0x5b, 0x3c, 0x36, 0x34, 0x3b]
            &&& e.button == MouseButton::ScrollDown ==> x[3] == 97 && s.subrange(0, 6) == seq![0x1bu8, 0x5b, 0x3c, 0x36, 0x35, 0x3b]
        }),
{
    let m = KeyModifiers { shift: false, alt: false, ctrl: false };
    let code = button_code(e, m);
    let d = decimal(code);
    let s = sgr_bytes(e, m);
    assert(decimal(0) == seq![0x30u8]);
    assert(decimal(1) == seq![0x31u8]);
    assert(decimal(2) == seq![0x32u8]);
    assert(decimal(6) == seq![0x36u8]);
    assert(decimal(64) == seq![0x36u8, 0x34]);
    assert(decimal(65) == seq![0x36u8, 0x35]);
    let p = seq![0x1bu8, 0x5b, 0x3c] + d + seq![0x3bu8];
    assert(s.subrange(0, p.len() as int) =~= p);
    assert(p.subrange(0, p.len() as int) =~= p);
    if code < 10 {
        assert(p =~= seq![0x1bu8, 0x5b, 0x3c, d[0], 0x3bu8]);
    } else if code == 64 || code == 65 {
        assert(p =~= seq![0x1bu8, 0x5b, 0x3c, d[0], d[1], 0x3bu8]);
    }
}

} // verus!

verus! {

/// Held modifiers add 4 for shift, 8 for alt and 16 for control to the reported button
/// byte of a press or motion, and a motion reports 32 more than a press of the same
/// button.
pub proof fn law_report_modifiers(e: MouseEvent, m: KeyModifiers)
    requires
        e.kind != MouseEventKind::Release,
    ensures
        x10_bytes(e, m)[3] == x10_bytes(e, KeyModifiers { shift: false, alt: false, ctrl: false })[3] + (if m.shift {
            4int
        } else {
            0
        }) + (if m.alt {
            8int
        } else {
            0
        }) + (if m.ctrl {
            16int
        } else {
            0
        }),
        e.kind == MouseEventKind::Press ==> x10_bytes(MouseEvent { kind: MouseEventKind::Motion, ..e }, m)[3]
            == x10_bytes(e, m)[3] + 32,
{
}

} // verus!
