use vstd::prelude::*;

use crate::text::{decimal, push_decimal};

verus! {

/// The modifier keys held with a key.
#[derive(Clone, Copy, Debug, Default, PartialEq, Eq, Structural)]
pub struct KeyModifiers {
    pub shift: bool,
    pub alt: bool,
    pub ctrl: bool,
}

/// The keys that send an escape sequence; every other key is `Other`.
#[derive(Clone, Copy, Debug, PartialEq, Eq, Structural)]
pub enum NamedKey {
    Tab,
    Enter,
    Backspace,
    Escape,
    ArrowUp,
    ArrowDown,
    ArrowRight,
    ArrowLeft,
    Home,
    End,
    Insert,
    Delete,
    PageUp,
    PageDown,
    F1,
    F2,
    F3,
    F4,
    F5,
    F6,
    F7,
    F8,
    F9,
    F10,
    F11,
    F12,
    Other,
}

/// The three shapes of key sequence.
pub enum KeySequence {
    /// `CSI [1;mod] letter`, or `SS3 letter` in application cursor mode.
    Letter { code: u8, app_mode: bool },
    /// `SS3 letter`, or `CSI 1;mod letter` with a modifier.
    Ss3(u8),
    /// `CSI num [;mod] ~`.
    Tilde(u16),
    /// A fixed byte string.
    Fixed(Vec<u8>),
}

/// The shape of the sequence that a key sends (`None` for keys that send none).
pub open spec fn key_shape(key: NamedKey, shift: bool) -> Option<(nat, u8, bool, u16, Seq<u8>)> {
    // (kind, letter, application mode, number, fixed bytes); kind 0 letter, 1 tilde, 2 fixed,
    // 3 SS3 letter
    match key {
        NamedKey::Tab => if shift {
            Some((2, 0u8, false, 0u16, seq![0x1bu8, 0x5b, 0x5a]))
        } else {
            Some((2, 0u8, false, 0u16, seq![0x09u8]))
        },
        NamedKey::Enter => Some((2, 0u8, false, 0u16, seq![0x0du8])),
        NamedKey::Backspace => Some((2, 0u8, false, 0u16, seq![0x7fu8])),
        NamedKey::Escape => Some((2, 0u8, false, 0u16, seq![0x1bu8])),
        NamedKey::ArrowUp => Some((0, 0x41u8, true, 0u16, Seq::empty())),
        NamedKey::ArrowDown => Some((0, 0x42u8, true, 0u16, Seq::empty())),
        NamedKey::ArrowRight => Some((0, 0x43u8, true, 0u16, Seq::empty())),
        NamedKey::ArrowLeft => Some((0, 0x44u8, true, 0u16, Seq::empty())),
        NamedKey::Home => Some((0, 0x48u8, true, 0u16, Seq::empty())),
        NamedKey::End => Some((0, 0x46u8, true, 0u16, Seq::empty())),
        NamedKey::Insert => Some((1, 0u8, false, 2u16, Seq::empty())),
        NamedKey::Delete => Some((1, 0u8, false, 3u16, Seq::empty())),
        NamedKey::PageUp => Some((1, 0u8, false, 5u16, Seq::empty())),
        NamedKey::PageDown => Some((1, 0u8, false, 6u16, Seq::empty())),
        NamedKey::F5 => Some((1, 0u8, false, 15u16, Seq::empty())),
        NamedKey::F6 => Some((1, 0u8, false, 17u16, Seq::empty())),
        NamedKey::F7 => Some((1, 0u8, false, 18u16, Seq::empty())),
        NamedKey::F8 => Some((1, 0u8, false, 19u16, Seq::empty())),
        NamedKey::F9 => Some((1, 0u8, false, 20u16, Seq::empty())),
        NamedKey::F10 => Some((1, 0u8, false, 21u16, Seq::empty())),
        NamedKey::F11 => Some((1, 0u8, false, 23u16, Seq::empty())),
        NamedKey::F12 => Some((1, 0u8, false, 24u16, Seq::empty())),
        NamedKey::F1 => Some((3, 0x50u8, false, 0u16, Seq::empty())),
        NamedKey::F2 => Some((3, 0x51u8, false, 0u16, Seq::empty())),
        NamedKey::F3 => Some((3, 0x52u8, false, 0u16, Seq::empty())),
        NamedKey::F4 => Some((3, 0x53u8, false, 0u16, Seq::empty())),
        NamedKey::Other => None,
    }
}

/// The xterm modifier parameter: 1, plus 1 for shift, 2 for alt, 4 for control.
pub open spec fn modifier_code(m: KeyModifiers) -> nat {
    1 + (if m.shift { 1nat } else { 0 }) + (if m.alt { 2nat } else { 0 }) + (if m.ctrl { 4nat } else { 0 })
}

/// The bytes that a key sends: cursor and Home/End keys send `ESC [ letter` (or
/// `ESC O letter` in application cursor mode), F1 to F4 `ESC O letter`, and with a
/// modifier all of them `ESC [ 1 ; mod letter`; editing keys and F5 to F12 send `ESC [ num ~`, with
/// a modifier `ESC [ num ; mod ~`; Tab, Enter, Backspace and Escape send fixed bytes.
pub open spec fn key_bytes(m: KeyModifiers, key: NamedKey, decckm: bool) -> Option<Seq<u8>> {
    let code = modifier_code(m);
    match key_shape(key, m.shift) {
        None => None,
        Some((kind, letter, app_mode, num, fixed)) => if kind == 0 {
            if code == 1 {
                if decckm && app_mode {
                    Some(seq![0x1bu8, 0x4f, letter])
                } else {
                    Some(seq![0x1bu8, 0x5b, letter])
                }
            } else {
                Some(seq![0x1bu8, 0x5b, 0x31, 0x3b] + decimal(code) + seq![letter])
            }
        } else if kind == 3 {
            if code == 1 {
                Some(seq![0x1bu8, 0x4f, letter])
            } else {
                Some(seq![0x1bu8, 0x5b, 0x31, 0x3b] + decimal(code) + seq![letter])
            }
        } else if kind == 1 {
            if code == 1 {
                Some(seq![0x1bu8, 0x5b] + decimal(num as nat) + seq![0x7eu8])
            } else {
                Some(seq![0x1bu8, 0x5b] + decimal(num as nat) + seq![0x3bu8] + decimal(code) + seq![0x7eu8])
            }
        } else {
            Some(fixed)
        },
    }
}

/// The sequence shape of a key, if it sends one.
pub fn classify_key(key: NamedKey, shift: bool) -> (r: Option<KeySequence>)
    ensures
        match (r, key_shape(key, shift)) {
            (None, None) => true,
            (Some(KeySequence::Letter { code, app_mode }), Some((kind, l, a, _, _))) => kind == 0
                && code == l && app_mode == a,
            (Some(KeySequence::Ss3(code)), Some((kind, l, _, _, _))) => kind == 3 && code == l,
            (Some(KeySequence::Tilde(n)), Some((kind, _, _, num, _))) => kind == 1 && n == num,
            (Some(KeySequence::Fixed(bytes)), Some((kind, _, _, _, fixed))) => kind == 2 && bytes@
                == fixed,
            _ => false,
        },
{
    match key {
        NamedKey::Tab => if shift {
            Some(KeySequence::Fixed(vec![0x1bu8, 0x5b, 0x5a]))
        } else {
            Some(KeySequence::Fixed(vec![0x09u8]))
        },
        NamedKey::Enter => Some(KeySequence::Fixed(vec![0x0du8])),
        NamedKey::Backspace => Some(KeySequence::Fixed(vec![0x7fu8])),
        NamedKey::Escape => Some(KeySequence::Fixed(vec![0x1bu8])),
        NamedKey::ArrowUp => Some(KeySequence::Letter { code: 0x41, app_mode: true }),
        NamedKey::ArrowDown => Some(KeySequence::Letter { code: 0x42, app_mode: true }),
        NamedKey::ArrowRight => Some(KeySequence::Letter { code: 0x43, app_mode: true }),
        NamedKey::ArrowLeft => Some(KeySequence::Letter { code: 0x44, app_mode: true }),
        NamedKey::Home => Some(KeySequence::Letter { code: 0x48, app_mode: true }),
        NamedKey::End => Some(KeySequence::Letter { code: 0x46, app_mode: true }),
        NamedKey::Insert => Some(KeySequence::Tilde(2)),
        NamedKey::Delete => Some(KeySequence::Tilde(3)),
        NamedKey::PageUp => Some(KeySequence::Tilde(5)),
        NamedKey::PageDown => Some(KeySequence::Tilde(6)),
        NamedKey::F5 => Some(KeySequence::Tilde(15)),
        NamedKey::F6 => Some(KeySequence::Tilde(17)),
        NamedKey::F7 => Some(KeySequence::Tilde(18)),
        NamedKey::F8 => Some(KeySequence::Tilde(19)),
        NamedKey::F9 => Some(KeySequence::Tilde(20)),
        NamedKey::F10 => Some(KeySequence::Tilde(21)),
        NamedKey::F11 => Some(KeySequence::Tilde(23)),
        NamedKey::F12 => Some(KeySequence::Tilde(24)),
        NamedKey::F1 => Some(KeySequence::Ss3(0x50)),
        NamedKey::F2 => Some(KeySequence::Ss3(0x51)),
        NamedKey::F3 => Some(KeySequence::Ss3(0x52)),
        NamedKey::F4 => Some(KeySequence::Ss3(0x53)),
        NamedKey::Other => None,
    }
}

/// The bytes that a key with modifiers sends to the shell (`None` for keys that send
/// no sequence); `decckm` is application cursor mode.
pub fn build(modifiers: KeyModifiers, key: NamedKey, decckm: bool) -> (r: Option<Vec<u8>>)
    ensures
        match (r, key_bytes(modifiers, key, decckm)) {
            (None, None) => true,
            (Some(v), Some(s)) => v@ == s,
            _ => false,
        },
{
    let mut modifiers_code: usize = 1;
    if modifiers.shift {
        modifiers_code = modifiers_code + 1;
    }
    if modifiers.alt {
        modifiers_code = modifiers_code + 2;
    }
    if modifiers.ctrl {
        modifiers_code = modifiers_code + 4;
    }
    let sequence = match classify_key(key, modifiers.shift) {
        Some(s) => s,
        None => {
            return None;
        },
    };
    let buf = match sequence {
        KeySequence::Letter { code, app_mode } => {
            if modifiers_code == 1 {
                if decckm && app_mode {
                    vec![0x1bu8, 0x4f, code]
                } else {
                    vec![0x1bu8, 0x5b, code]
                }
            } else {
                let mut buf = vec![0x1bu8, 0x5b, 0x31, 0x3b];
                push_decimal(&mut buf, modifiers_code);
                buf.push(code);
                buf
            }
        },
        KeySequence::Ss3(code) => {
            if modifiers_code == 1 {
                vec![0x1bu8, 0x4f, code]
            } else {
                let mut buf = vec![0x1bu8, 0x5b, 0x31, 0x3b];
                push_decimal(&mut buf, modifiers_code);
                buf.push(code);
                buf
            }
        },
        KeySequence::Tilde(num) => {
            let mut buf = vec![0x1bu8, 0x5b];
            push_decimal(&mut buf, num as usize);
            if modifiers_code != 1 {
                buf.push(0x3b);
                push_decimal(&mut buf, modifiers_code);
            }
            buf.push(0x7e);
            buf
        },
        KeySequence::Fixed(bytes) => bytes,
    };
    assert(buf@ =~= key_bytes(modifiers, key, decckm).unwrap());
    Some(buf)
}

/// The byte that Control with a character key sends: letters give 1 to 26, `[` and
/// `{` give ESC, `\` and `|` give 0x1c, `]` and `}` give 0x1d; other keys give none.
pub open spec fn ctrl_byte(ch: char) -> Option<u8> {
    if 'a' <= ch <= 'z' {
        Some((ch as int - 'a' as int + 1) as u8)
    } else if 'A' <= ch <= 'Z' {
        Some((ch as int - 'A' as int + 1) as u8)
    } else if ch == '[' || ch == '{' {
        Some(0x1bu8)
    } else if ch == '\\' || ch == '|' {
        Some(0x1cu8)
    } else if ch == ']' || ch == '}' {
        Some(0x1du8)
    } else {
        None
    }
}

/// The byte that Control with the character key `ch` sends, if any.
pub fn control_byte(ch: char) -> (r: Option<u8>)
    ensures
        r == ctrl_byte(ch),
{
    if 'a' <= ch && ch <= 'z' {
        Some(((ch as u32) - ('a' as u32) + 1) as u8)
    } else if 'A' <= ch && ch <= 'Z' {
        Some(((ch as u32) - ('A' as u32) + 1) as u8)
    } else if ch == '[' || ch == '{' {
        Some(0x1b)
    } else if ch == '\\' || ch == '|' {
        Some(0x1c)
    } else if ch == ']' || ch == '}' {
        Some(0x1d)
    } else {
        None
    }
}

} // verus!

verus! {

/// The last byte each key's sequence ends with (shift turns Tab into back-tab).
spec fn key_last_byte(k: NamedKey, shift: bool) -> u8 {
    match k {
        NamedKey::Tab => if shift { 0x5au8 } else { 0x09u8 },
        NamedKey::Enter => 0x0du8,
        NamedKey::Backspace => 0x7fu8,
        NamedKey::Escape => 0x1bu8,
        NamedKey::ArrowUp => 0x41u8,
        NamedKey::ArrowDown => 0x42u8,
        NamedKey::ArrowRight => 0x43u8,
        NamedKey::ArrowLeft => 0x44u8,
        NamedKey::Home => 0x48u8,
        NamedKey::End => 0x46u8,
        NamedKey::F1 => 0x50u8,
        NamedKey::F2 => 0x51u8,
        NamedKey::F3 => 0x52u8,
        NamedKey::F4 => 0x53u8,
        _ => 0x7eu8,
    }
}

proof fn lemma_key_last_byte(m: KeyModifiers, k: NamedKey, decckm: bool)
    requires
        key_bytes(m, k, decckm) is Some,
    ensures
        key_bytes(m, k, decckm).unwrap().len() > 0,
        key_bytes(m, k, decckm).unwrap().last() == key_last_byte(k, m.shift),
{
    let code = modifier_code(m);
    let d = decimal(code);
    let s = key_bytes(m, k, decckm).unwrap();
    match key_shape(k, m.shift) {
        Some((kind, letter, _, num, _)) => {
            if kind == 0 || kind == 3 {
                if code != 1 {
                    let p = seq![0x1bu8, 0x5b, 0x31, 0x3b] + d;
                    assert(s == p + seq![letter]);
                    assert((p + seq![letter]).last() == letter);
                }
            } else if kind == 1 {
                let dn = decimal(num as nat);
                if code == 1 {
                    assert(s == (seq![0x1bu8, 0x5b] + dn) + seq![0x7eu8]);
                    assert(((seq![0x1bu8, 0x5b] + dn) + seq![0x7eu8]).last() == 0x7eu8);
                } else {
                    let p = seq![0x1bu8, 0x5b] + dn + seq![0x3bu8] + d;
                    assert(s == p + seq![0x7eu8]);
                    assert((p + seq![0x7eu8]).last() == 0x7eu8);
                }
            }
        },
        None => {},
    }
}

/// The number in a key's `ESC [ num ~` sequence.
spec fn tilde_number(k: NamedKey) -> u16 {
    match key_shape(k, false) {
        Some((_, _, _, num, _)) => num,
        None => 0,
    }
}

/// Two tilde sequences with the same modifier are equal only for the same number.
proof fn lemma_tilde_injective(code: nat, n1: nat, n2: nat)
    requires
        n1 != n2,
    ensures
        code == 1 ==> seq![0x1bu8, 0x5b] + decimal(n1) + seq![0x7eu8] != seq![0x1bu8, 0x5b] + decimal(n2) + seq![0x7eu8],
        code != 1 ==> seq![0x1bu8, 0x5b] + decimal(n1) + seq![0x3bu8] + decimal(code) + seq![0x7eu8]
            != seq![0x1bu8, 0x5b] + decimal(n2) + seq![0x3bu8] + decimal(code) + seq![0x7eu8],
{
    crate::text::law_decimal_roundtrip(n1);
    crate::text::law_decimal_roundtrip(n2);
    let d1 = decimal(n1);
    let d2 = decimal(n2);
    let dc = decimal(code);
    let a1 = seq![0x1bu8, 0x5b] + d1 + seq![0x7eu8];
    let a2 = seq![0x1bu8, 0x5b] + d2 + seq![0x7eu8];
    if a1 == a2 {
        assert(a1.subrange(2, a1.len() - 1) =~= d1);
        assert(a2.subrange(2, a2.len() - 1) =~= d2);
    }
    let b1 = seq![0x1bu8, 0x5b] + d1 + seq![0x3bu8] + dc + seq![0x7eu8];
    let b2 = seq![0x1bu8, 0x5b] + d2 + seq![0x3bu8] + dc + seq![0x7eu8];
    if b1 == b2 {
        assert(b1.subrange(2, 2 + d1.len() as int) =~= d1);
        assert(b2.subrange(2, 2 + d2.len() as int) =~= d2);
    }
}

/// Different keys send different sequences under the same modifiers and cursor key
/// mode, so the shell can tell every key apart.
pub proof fn law_key_bytes_distinct(m: KeyModifiers, k1: NamedKey, k2: NamedKey, decckm: bool)
    requires
        k1 != k2,
        key_bytes(m, k1, decckm) is Some,
    ensures
        key_bytes(m, k1, decckm) != key_bytes(m, k2, decckm),
{
    if key_bytes(m, k1, decckm) == key_bytes(m, k2, decckm) {
        lemma_key_last_byte(m, k1, decckm);
        lemma_key_last_byte(m, k2, decckm);
        assert(key_last_byte(k1, m.shift) == key_last_byte(k2, m.shift));
        lemma_tilde_injective(modifier_code(m), tilde_number(k1) as nat, tilde_number(k2) as nat);
    }
}

/// Page Up and Page Down without modifiers send `ESC [ 5 ~` and `ESC [ 6 ~`; Insert and
/// Delete `ESC [ 2 ~` and `ESC [ 3 ~`.
pub proof fn law_editing_key_sequences(decckm: bool)
    ensures
        key_bytes(KeyModifiers { shift: false, alt: false, ctrl: false }, NamedKey::PageUp, decckm) == Some(
            seq![0x1bu8, 0x5b, 0x35, 0x7e],
        ),
        key_bytes(KeyModifiers { shift: false, alt: false, ctrl: false }, NamedKey::PageDown, decckm) == Some(
            seq![0x1bu8, 0x5b, 0x36, 0x7e],
        ),
        key_bytes(KeyModifiers { shift: false, alt: false, ctrl: false }, NamedKey::Insert, decckm) == Some(
            seq![0x1bu8, 0x5b, 0x32, 0x7e],
        ),
        key_bytes(KeyModifiers { shift: false, alt: false, ctrl: false }, NamedKey::Delete, decckm) == Some(
            seq![0x1bu8, 0x5b, 0x33, 0x7e],
        ),
{
    assert(decimal(5) == seq![0x35u8]);
    assert(decimal(6) == seq![0x36u8]);
    assert(decimal(2) == seq![0x32u8]);
    assert(decimal(3) == seq![0x33u8]);
    assert(seq![0x1bu8, 0x5b] + seq![0x35u8] + seq![0x7eu8] =~= seq![0x1bu8, 0x5b, 0x35, 0x7e]);
    assert(seq![0x1bu8, 0x5b] + seq![0x36u8] + seq![0x7eu8] =~= seq![0x1bu8, 0x5b, 0x36, 0x7e]);
    assert(seq![0x1bu8, 0x5b] + seq![0x32u8] + seq![0x7eu8] =~= seq![0x1bu8, 0x5b, 0x32, 0x7e]);
    assert(seq![0x1bu8, 0x5b] + seq![0x33u8] + seq![0x7eu8] =~= seq![0x1bu8, 0x5b, 0x33, 0x7e]);
}

} // verus!

verus! {

/// The xterm sequences of the keys without modifiers: arrows `ESC [ A/B/C/D` (in
/// application cursor mode `ESC O A/B/C/D`), Home `ESC [ H`, End `ESC [ F`, F1 to F4
/// `ESC O P/Q/R/S`, F5 to F12 `ESC [ 15/17/18/19/20/21/23/24 ~`; Tab, Enter, Backspace
/// and Escape send 0x09, 0x0d, 0x7f and 0x1b, and shift-Tab `ESC [ Z`; with control
/// an arrow sends `ESC [ 1 ; 5` and its letter.
pub proof fn law_key_sequences()
    ensures
        ({
            let none = KeyModifiers { shift: false, alt: false, ctrl: false };
            let shift = KeyModifiers { shift: true, alt: false, ctrl: false };
            let ctrl = KeyModifiers { shift: false, alt: false, ctrl: true };
            &&& key_bytes(none, NamedKey::ArrowUp, false) == Some(seq![0x1bu8, 0x5b, 0x41])
            &&& key_bytes(none, NamedKey::ArrowDown, false) == Some(seq![0x1bu8, 0x5b, 0x42])
            &&& key_bytes(none, NamedKey::ArrowRight, false) == Some(seq![0x1bu8, 0x5b, 0x43])
            &&& key_bytes(none, NamedKey::ArrowLeft, false) == Some(seq![0x1bu8, 0x5b, 0x44])
            &&& key_bytes(none, NamedKey::ArrowUp, true) == Some(seq![0x1bu8, 0x4f, 0x41])
            &&& key_bytes(none, NamedKey::ArrowDown, true) == Some(seq![0x1bu8, 0x4f, 0x42])
            &&& key_bytes(none, NamedKey::ArrowRight, true) == Some(seq![0x1bu8, 0x4f, 0x43])
            &&& key_bytes(none, NamedKey::ArrowLeft, true) == Some(seq![0x1bu8, 0x4f, 0x44])
            &&& key_bytes(none, NamedKey::Home, false) == Some(seq![0x1bu8, 0x5b, 0x48])
            &&& key_bytes(none, NamedKey::End, false) == Some(seq![0x1bu8, 0x5b, 0x46])
            &&& key_bytes(none, NamedKey::F1, false) == Some(seq![0x1bu8, 0x4f, 0x50])
            &&& key_bytes(none, NamedKey::F2, false) == Some(seq![0x1bu8, 0x4f, 0x51])
            &&& key_bytes(none, NamedKey::F3, false) == Some(seq![0x1bu8, 0x4f, 0x52])
            &&& key_bytes(none, NamedKey::F4, false) == Some(seq![0x1bu8, 0x4f, 0x53])
            &&& key_bytes(none, NamedKey::F5, false) == Some(seq![0x1bu8, 0x5b, 0x31, 0x35, 0x7e])
            &&& key_bytes(none, NamedKey::F6, false) == Some(seq![0x1bu8, 0x5b, 0x31, 0x37, 0x7e])
            &&& key_bytes(none, NamedKey::F7, false) == Some(seq![0x1bu8, 0x5b, 0x31, 0x38, 0x7e])
            &&& key_bytes(none, NamedKey::F8, false) == Some(seq![0x1bu8, 0x5b, 0x31, 0x39, 0x7e])
            &&& key_bytes(none, NamedKey::F9, false) == Some(seq![0x1bu8, 0x5b, 0x32, 0x30, 0x7e])
            &&& key_bytes(none, NamedKey::F10, false) == Some(seq![0x1bu8, 0x5b, 0x32, 0x31, 0x7e])
            &&& key_bytes(none, NamedKey::F11, false) == Some(seq![0x1bu8, 0x5b, 0x32, 0x33, 0x7e])
            &&& key_bytes(none, NamedKey::F12, false) == Some(seq![0x1bu8, 0x5b, 0x32, 0x34, 0x7e])
            &&& key_bytes(none, NamedKey::Tab, false) == Some(seq![0x09u8])
            &&& key_bytes(shift, NamedKey::Tab, false) == Some(seq![0x1bu8, 0x5b, 0x5a])
            &&& key_bytes(none, NamedKey::Enter, false) == Some(seq![0x0du8])
            &&& key_bytes(none, NamedKey::Backspace, false) == Some(seq![0x7fu8])
            &&& key_bytes(none, NamedKey::Escape, false) == Some(seq![0x1bu8])
            &&& key_bytes(ctrl, NamedKey::ArrowUp, false) == Some(seq![0x1bu8, 0x5b, 0x31, 0x3b, 0x35, 0x41])
            &&& key_bytes(none, NamedKey::Other, false) is None
        }),
{
    assert(decimal(1) == seq![0x31u8]);
    assert(decimal(2) == seq![0x32u8]);
    assert(decimal(5) == seq![0x35u8]);
    assert(decimal(15) == seq![0x31u8, 0x35]);
    assert(decimal(17) == seq![0x31u8, 0x37]);
    assert(decimal(18) == seq![0x31u8, 0x38]);
    assert(decimal(19) == seq![0x31u8, 0x39]);
    assert(decimal(20) == seq![0x32u8, 0x30]);
    assert(decimal(21) == seq![0x32u8, 0x31]);
    assert(decimal(23) == seq![0x32u8, 0x33]);
    assert(decimal(24) == seq![0x32u8, 0x34]);
    assert(seq![0x1bu8, 0x5b] + seq![0x31u8, 0x35] + seq![0x7eu8] =~= seq![0x1bu8, 0x5b, 0x31, 0x35, 0x7e]);
    assert(seq![0x1bu8, 0x5b] + seq![0x31u8, 0x37] + seq![0x7eu8] =~= seq![0x1bu8, 0x5b, 0x31, 0x37, 0x7e]);
    assert(seq![0x1bu8, 0x5b] + seq![0x31u8, 0x38] + seq![0x7eu8] =~= seq![0x1bu8, 0x5b, 0x31, 0x38, 0x7e]);
    assert(seq![0x1bu8, 0x5b] + seq![0x31u8, 0x39] + seq![0x7eu8] =~= seq![0x1bu8, 0x5b, 0x31, 0x39, 0x7e]);
    assert(seq![0x1bu8, 0x5b] + seq![0x32u8, 0x30] + seq![0x7eu8] =~= seq![0x1bu8, 0x5b, 0x32, 0x30, 0x7e]);
    assert(seq![0x1bu8, 0x5b] + seq![0x32u8, 0x31] + seq![0x7eu8] =~= seq![0x1bu8, 0x5b, 0x32, 0x31, 0x7e]);
    assert(seq![0x1bu8, 0x5b] + seq![0x32u8, 0x33] + seq![0x7eu8] =~= seq![0x1bu8, 0x5b, 0x32, 0x33, 0x7e]);
    assert(seq![0x1bu8, 0x5b] + seq![0x32u8, 0x34] + seq![0x7eu8] =~= seq![0x1bu8, 0x5b, 0x32, 0x34, 0x7e]);
    let ctrl = KeyModifiers { shift: false, alt: false, ctrl: true };
    assert(modifier_code(ctrl) == 5);
    assert(seq![0x1bu8, 0x5b, 0x31, 0x3b] + seq![0x35u8] + seq![0x41u8] =~= seq![0x1bu8, 0x5b, 0x31, 0x3b, 0x35, 0x41]);
}

} // verus!
