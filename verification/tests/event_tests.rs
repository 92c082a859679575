use specula::cell::Point;
use specula::events::{key_action, mouse_wheel, report_fits_at, KeyAction, KeyInput, PointerCell, PointerState, WheelAction};
use specula::grid::Grid;
use specula::input::{KeyModifiers, NamedKey};
use specula::mouse::MouseButton;
use specula::selection::{Selection, SelectionKind};
use specula::terminal::TerminalMode;

fn mode_with(flags: u32) -> TerminalMode {
    let mut m = TerminalMode::empty();
    m.insert(flags);
    m
}

fn at(row: usize, col: usize) -> PointerCell {
    PointerCell { row, col, boundary_col: col }
}

fn key<'a>(named: Option<NamedKey>, character: Option<char>, text: Option<&'a str>) -> KeyInput<'a> {
    KeyInput { pressed: true, copy_key: false, paste_key: false, named, character, text }
}

#[test]
fn reported_clicks_go_to_the_shell() {
    let g = Grid::new(5, 10, 0);
    let mode = mode_with(TerminalMode::MOUSE_REPORT | TerminalMode::MOUSE_SGR);
    let none = KeyModifiers::default();
    let mut st = PointerState::new();
    st.selection = Some(Selection::default());
    let out = st.mouse_input(&g, &mode, none, at(2, 5), true, MouseButton::Left, false);
    assert_eq!(out.report, Some(b"\x1b[<0;6;3M".to_vec()));
    assert!(!out.clicked && !out.redraw);
    assert_eq!(st.selection, None);
    assert_eq!(st.mouse_state, MouseButton::Left);
    let up = st.mouse_input(&g, &mode, none, at(20, 50), false, MouseButton::Left, false);
    assert_eq!(up.report, Some(b"\x1b[<3;10;5m".to_vec()));
    assert_eq!(st.mouse_state, MouseButton::NoButton);
}

#[test]
fn shift_click_selects_even_when_reporting() {
    let g = Grid::new(5, 10, 0);
    let mode = mode_with(TerminalMode::MOUSE_REPORT);
    let shift = KeyModifiers { shift: true, ..KeyModifiers::default() };
    let mut st = PointerState::new();
    let out = st.mouse_input(&g, &mode, shift, at(1, 3), true, MouseButton::Left, false);
    assert_eq!(out.report, None);
    assert!(out.clicked && out.redraw);
    let p = Point { row: 1, col: 3 };
    assert_eq!(st.selection, Some(Selection { anchor: p, end: p, kind: SelectionKind::Character }));
}

#[test]
fn quick_clicks_cycle_selection_kinds() {
    let g = Grid::new(3, 10, 0);
    let mode = TerminalMode::empty();
    let none = KeyModifiers::default();
    let mut st = PointerState::new();
    st.mouse_input(&g, &mode, none, at(0, 2), true, MouseButton::Left, true);
    assert_eq!(st.selection.unwrap().kind, SelectionKind::Character);
    st.mouse_input(&g, &mode, none, at(0, 2), false, MouseButton::Left, true);
    assert_eq!(st.mouse_state, MouseButton::NoButton);
    st.mouse_input(&g, &mode, none, at(0, 2), true, MouseButton::Left, true);
    assert_eq!(st.selection.unwrap().kind, SelectionKind::Word);
    st.mouse_input(&g, &mode, none, at(0, 2), true, MouseButton::Left, true);
    assert_eq!(st.selection.unwrap().kind, SelectionKind::Line);
    st.mouse_input(&g, &mode, none, at(0, 2), true, MouseButton::Left, true);
    assert_eq!(st.selection.unwrap().kind, SelectionKind::Character);
    st.mouse_input(&g, &mode, none, at(0, 2), true, MouseButton::Left, false);
    assert_eq!(st.selection.unwrap().kind, SelectionKind::Character);
}

#[test]
fn dragging_extends_the_selection() {
    let g = Grid::new(3, 10, 0);
    let mode = TerminalMode::empty();
    let none = KeyModifiers::default();
    let mut st = PointerState::new();
    st.mouse_input(&g, &mode, none, at(0, 2), true, MouseButton::Left, false);
    let (report, redraw) = st.cursor_moved(&g, &mode, none, PointerCell { row: 2, col: 7, boundary_col: 8 });
    assert_eq!(report, None);
    assert!(redraw);
    let s = st.selection.unwrap();
    assert_eq!(s.anchor, Point { row: 0, col: 2 });
    assert_eq!(s.end, Point { row: 2, col: 8 });
    st.mouse_input(&g, &mode, none, at(2, 8), false, MouseButton::Left, false);
    let (report, redraw) = st.cursor_moved(&g, &mode, none, at(1, 1));
    assert_eq!(report, None);
    assert!(!redraw);
    assert_eq!(st.selection.unwrap().end, Point { row: 2, col: 8 });
}

#[test]
fn motion_reports() {
    let g = Grid::new(3, 10, 0);
    let none = KeyModifiers::default();
    let mut st = PointerState::new();
    let drag = mode_with(TerminalMode::MOUSE_DRAG | TerminalMode::MOUSE_SGR);
    assert_eq!(st.cursor_moved(&g, &drag, none, at(1, 1)), (None, false));
    st.mouse_input(&g, &drag, none, at(1, 1), true, MouseButton::Left, false);
    assert_eq!(st.cursor_moved(&g, &drag, none, at(1, 2)), (Some(b"\x1b[<32;3;2M".to_vec()), false));
    let motion = mode_with(TerminalMode::MOUSE_MOTION);
    let mut idle = PointerState::new();
    assert_eq!(idle.cursor_moved(&g, &motion, none, at(0, 0)), (Some(vec![0x1b, b'[', b'M', 35 + 32, 33, 33]), false));
}

#[test]
fn wheel_turns() {
    let g = Grid::new(3, 10, 0);
    let none = KeyModifiers::default();
    let report = mode_with(TerminalMode::MOUSE_REPORT | TerminalMode::MOUSE_SGR);
    match mouse_wheel(&g, &report, none, at(0, 0), 2) {
        WheelAction::Report(bytes, n) => {
            assert_eq!(bytes, b"\x1b[<64;1;1M".to_vec());
            assert_eq!(n, 2);
        },
        _ => panic!("a wheel turn is reported"),
    }
    match mouse_wheel(&g, &report, none, at(0, 0), -1) {
        WheelAction::Report(bytes, n) => {
            assert_eq!(bytes, b"\x1b[<65;1;1M".to_vec());
            assert_eq!(n, 1);
        },
        _ => panic!("a wheel turn is reported"),
    }
    assert!(matches!(mouse_wheel(&g, &report, none, at(0, 0), 0), WheelAction::Ignore));
    let plain = TerminalMode::empty();
    assert!(matches!(mouse_wheel(&g, &plain, none, at(0, 0), 2), WheelAction::Scroll(6)));
    assert!(matches!(mouse_wheel(&g, &plain, none, at(0, 0), -1), WheelAction::Scroll(-3)));
    assert!(matches!(mouse_wheel(&g, &report, none, at(0, 0), i32::MIN), WheelAction::Report(_, 2147483648)));
}

#[test]
fn key_actions() {
    let none = KeyModifiers::default();
    let ctrl = KeyModifiers { ctrl: true, ..none };
    let ctrl_shift = KeyModifiers { ctrl: true, shift: true, ..none };
    let ctrl_alt = KeyModifiers { ctrl: true, alt: true, ..none };
    let alt = KeyModifiers { alt: true, ..none };
    let released = KeyInput { pressed: false, ..key(None, Some('a'), Some("a")) };
    assert!(matches!(key_action(none, false, &released), KeyAction::Ignore));
    let c = KeyInput { copy_key: true, ..key(None, Some('C'), Some("C")) };
    assert!(matches!(key_action(ctrl_shift, false, &c), KeyAction::Copy));
    let v = KeyInput { paste_key: true, ..key(None, Some('V'), Some("V")) };
    assert!(matches!(key_action(ctrl_shift, false, &v), KeyAction::Paste));
    assert!(matches!(key_action(ctrl, false, &v), KeyAction::Send(b) if b == vec![0x16]));
    assert!(matches!(key_action(none, false, &key(Some(NamedKey::ArrowUp), None, None)), KeyAction::Send(b) if b == b"\x1b[A".to_vec()));
    assert!(matches!(key_action(none, true, &key(Some(NamedKey::ArrowUp), None, None)), KeyAction::Send(b) if b == b"\x1bOA".to_vec()));
    assert!(matches!(key_action(ctrl, false, &key(None, Some('c'), Some("c"))), KeyAction::Send(b) if b == vec![3]));
    assert!(matches!(key_action(ctrl_alt, false, &key(None, Some('c'), Some("c"))), KeyAction::Send(b) if b == vec![0x1b, 3]));
    assert!(matches!(key_action(ctrl, false, &key(None, Some('1'), Some("1"))), KeyAction::Ignore));
    assert!(matches!(key_action(alt, false, &key(None, Some('x'), Some("x"))), KeyAction::Send(b) if b == b"\x1bx".to_vec()));
    assert!(matches!(key_action(none, false, &key(None, Some('é'), Some("é"))), KeyAction::Send(b) if b == "é".as_bytes().to_vec()));
    assert!(matches!(key_action(none, false, &key(Some(NamedKey::Other), None, Some(" "))), KeyAction::Send(b) if b == b" ".to_vec()));
    assert!(matches!(key_action(none, false, &key(Some(NamedKey::Other), None, None)), KeyAction::Ignore));
}

#[test]
fn report_encodability_and_motion() {
    let g = Grid::new(300, 300, 0);
    let legacy = mode_with(TerminalMode::MOUSE_REPORT);
    let sgr = mode_with(TerminalMode::MOUSE_REPORT | TerminalMode::MOUSE_SGR);
    assert!(report_fits_at(&g, &legacy, at(0, 222)));
    assert!(!report_fits_at(&g, &legacy, at(0, 223)));
    assert!(!report_fits_at(&g, &legacy, at(250, 0)));
    assert!(report_fits_at(&g, &legacy, at(256, 0)));
    assert!(report_fits_at(&g, &sgr, at(299, 299)));
    let mut st = PointerState::new();
    let drag = mode_with(TerminalMode::MOUSE_DRAG);
    assert!(!st.reports_motion(&drag));
    assert!(st.reports_motion(&mode_with(TerminalMode::MOUSE_MOTION)));
    st.mouse_state = MouseButton::Left;
    assert!(st.reports_motion(&drag));
    st.selection = Some(Selection::default());
    assert!(!st.reports_motion(&drag));
}

#[test]
fn selection_snaps_to_wide_characters() {
    let mut g = Grid::new(2, 4, 0);
    g.write_char('漢');
    let mut st = PointerState::new();
    let p = Point { row: 0, col: 1 };
    st.selection = Some(Selection { anchor: p, end: p, kind: SelectionKind::Character });
    st.snap_selection(&g);
    let s = st.selection.unwrap();
    assert_eq!(s.anchor, Point { row: 0, col: 0 });
    assert_eq!(s.end, Point { row: 0, col: 2 });
    let mut none = PointerState::new();
    none.snap_selection(&g);
    assert_eq!(none.selection, None);
}
