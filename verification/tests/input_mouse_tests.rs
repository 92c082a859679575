use specula::cell::Point;
use specula::input::{build, classify_key, control_byte, KeyModifiers, KeySequence, NamedKey};
use specula::mouse::{wheel_button, MouseButton, MouseEvent, MouseEventKind};

fn mods(shift: bool, alt: bool, ctrl: bool) -> KeyModifiers {
    KeyModifiers { shift, alt, ctrl }
}

#[test]
fn plain_keys_send_fixed_bytes() {
    let none = KeyModifiers::default();
    assert_eq!(build(none, NamedKey::Tab, false), Some(b"\t".to_vec()));
    assert_eq!(build(mods(true, false, false), NamedKey::Tab, false), Some(b"\x1b[Z".to_vec()));
    assert_eq!(build(none, NamedKey::Enter, false), Some(b"\r".to_vec()));
    assert_eq!(build(none, NamedKey::Backspace, false), Some(b"\x7f".to_vec()));
    assert_eq!(build(none, NamedKey::Escape, true), Some(b"\x1b".to_vec()));
    assert_eq!(build(mods(false, false, true), NamedKey::Enter, false), Some(b"\r".to_vec()));
    assert_eq!(build(none, NamedKey::Other, false), None);
}

#[test]
fn cursor_keys_and_application_mode() {
    let none = KeyModifiers::default();
    assert_eq!(build(none, NamedKey::ArrowDown, false), Some(b"\x1b[B".to_vec()));
    assert_eq!(build(none, NamedKey::ArrowDown, true), Some(b"\x1bOB".to_vec()));
    assert_eq!(build(none, NamedKey::Home, true), Some(b"\x1bOH".to_vec()));
    assert_eq!(build(none, NamedKey::End, false), Some(b"\x1b[F".to_vec()));
    assert_eq!(build(none, NamedKey::F2, true), Some(b"\x1bOQ".to_vec()));
    assert_eq!(build(none, NamedKey::F1, false), Some(b"\x1bOP".to_vec()));
    assert_eq!(build(none, NamedKey::F4, false), Some(b"\x1bOS".to_vec()));
    assert_eq!(build(mods(true, false, false), NamedKey::F1, false), Some(b"\x1b[1;2P".to_vec()));
    assert_eq!(build(mods(false, false, true), NamedKey::F3, true), Some(b"\x1b[1;5R".to_vec()));
    assert_eq!(build(mods(true, false, false), NamedKey::ArrowLeft, true), Some(b"\x1b[1;2D".to_vec()));
    assert_eq!(build(mods(true, true, true), NamedKey::ArrowRight, false), Some(b"\x1b[1;8C".to_vec()));
}

#[test]
fn tilde_keys_with_modifiers() {
    let none = KeyModifiers::default();
    assert_eq!(build(none, NamedKey::Delete, false), Some(b"\x1b[3~".to_vec()));
    assert_eq!(build(none, NamedKey::F12, false), Some(b"\x1b[24~".to_vec()));
    assert_eq!(build(mods(false, true, false), NamedKey::PageUp, false), Some(b"\x1b[5;3~".to_vec()));
    assert_eq!(build(mods(false, false, true), NamedKey::F5, false), Some(b"\x1b[15;5~".to_vec()));
}

#[test]
fn key_classification() {
    assert!(matches!(classify_key(NamedKey::Insert, false), Some(KeySequence::Tilde(2))));
    assert!(matches!(
        classify_key(NamedKey::F3, false),
        Some(KeySequence::Ss3(b'R'))
    ));
    assert!(matches!(
        classify_key(NamedKey::ArrowUp, true),
        Some(KeySequence::Letter { code: b'A', app_mode: true })
    ));
    match classify_key(NamedKey::Tab, true) {
        Some(KeySequence::Fixed(b)) => assert_eq!(b, b"\x1b[Z".to_vec()),
        _ => panic!("shift-tab is a fixed sequence"),
    }
    assert!(classify_key(NamedKey::Other, true).is_none());
}

#[test]
fn control_characters() {
    assert_eq!(control_byte('a'), Some(1));
    assert_eq!(control_byte('C'), Some(3));
    assert_eq!(control_byte('z'), Some(26));
    assert_eq!(control_byte('['), Some(0x1b));
    assert_eq!(control_byte('|'), Some(0x1c));
    assert_eq!(control_byte('}'), Some(0x1d));
    assert_eq!(control_byte('1'), None);
    assert_eq!(control_byte('é'), None);
}

#[test]
fn mouse_events_from_buttons() {
    let m = mods(false, true, false);
    let e = MouseEvent::button_event(MouseButton::Left, Point { row: 2, col: 5 }, m);
    assert_eq!(e.kind, MouseEventKind::Press);
    assert_eq!((e.row, e.col, e.alt), (2, 5, true));
    let r = MouseEvent::button_event(MouseButton::NoButton, Point { row: 0, col: 0 }, m);
    assert_eq!(r.kind, MouseEventKind::Release);
    let mv = MouseEvent::motion_event(MouseButton::Right, Point { row: 1, col: 1 }, m);
    assert_eq!(mv.kind, MouseEventKind::Motion);
    assert!(MouseButton::Middle.is_pressed());
    assert!(!MouseButton::default().is_pressed());
}

#[test]
fn mouse_reports_sgr() {
    let none = KeyModifiers::default();
    let e = MouseEvent::button_event(MouseButton::Left, Point { row: 2, col: 5 }, none);
    assert_eq!(e.encode_mouse(&none, true), b"\x1b[<0;6;3M".to_vec());
    let r = MouseEvent::button_event(MouseButton::NoButton, Point { row: 9, col: 119 }, none);
    assert_eq!(r.encode_mouse(&none, true), b"\x1b[<3;120;10m".to_vec());
    let ctrl = mods(false, false, true);
    let mv = MouseEvent::motion_event(MouseButton::Left, Point { row: 0, col: 0 }, ctrl);
    assert_eq!(mv.encode_mouse(&ctrl, true), b"\x1b[<48;1;1M".to_vec());
    let w = MouseEvent::button_event(MouseButton::ScrollDown, Point { row: 0, col: 0 }, none);
    assert_eq!(w.encode_mouse(&mods(true, false, false), true), b"\x1b[<69;1;1M".to_vec());
}

#[test]
fn mouse_reports_legacy() {
    let none = KeyModifiers::default();
    let e = MouseEvent::button_event(MouseButton::Right, Point { row: 2, col: 5 }, none);
    assert_eq!(e.encode_mouse(&none, false), vec![0x1b, b'[', b'M', 2 + 32, 6 + 32, 3 + 32]);
    let shift = mods(true, false, false);
    let r = MouseEvent::button_event(MouseButton::NoButton, Point { row: 0, col: 0 }, shift);
    assert_eq!(r.encode_mouse(&shift, false), vec![0x1b, b'[', b'M', 7 + 32, 33, 33]);
    let up = MouseEvent::button_event(MouseButton::ScrollUp, Point { row: 1, col: 1 }, none);
    assert_eq!(up.encode_mouse(&none, false), vec![0x1b, b'[', b'M', 64 + 32, 34, 34]);
}

#[test]
fn wheel_direction() {
    assert_eq!(wheel_button(3), Some(MouseButton::ScrollUp));
    assert_eq!(wheel_button(-1), Some(MouseButton::ScrollDown));
    assert_eq!(wheel_button(0), None);
}
