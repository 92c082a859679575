use specula::cell::{Cell, CellFlags, Color, NamedColor, Point};
use specula::input::{KeyModifiers, NamedKey};
use specula::terminal::{CursorStyle, TerminalCore, TerminalMode};

fn csi(t: &mut TerminalCore, params: &[&[u16]], inter: &[u8], action: char) {
    let p: Vec<Vec<u16>> = params.iter().map(|g| g.to_vec()).collect();
    t.csi_dispatch(&p, inter, false, action);
}

fn print_str(t: &mut TerminalCore, s: &str) {
    for c in s.chars() {
        t.print(c);
    }
}

fn at(t: &TerminalCore) -> (usize, usize) {
    let p = t.cursor().point;
    (p.row, p.col)
}

#[test]
fn new_terminal_defaults() {
    let t = TerminalCore::new(4, 6, 10);
    assert_eq!(t.grid_rows(), 4);
    assert_eq!(t.grid_cols(), 6);
    assert_eq!(t.mode().bits(), TerminalMode::CURSOR_VISIBLE);
    assert_eq!(t.cursor_style(), CursorStyle::Block);
    assert_eq!(at(&t), (0, 0));
    assert!(!t.mouse_report_active());
    assert_eq!(t.dump_visible(), "      \n      \n      \n      \n");
}

#[test]
fn print_and_dump_visible() {
    let mut t = TerminalCore::new(2, 3, 0);
    print_str(&mut t, "hi");
    assert_eq!(t.dump_visible(), "hi \n   \n");
    assert_eq!(at(&t), (0, 2));
}

#[test]
fn execute_carriage_return_and_line_feed() {
    let mut t = TerminalCore::new(2, 3, 0);
    t.print('a');
    t.execute(0x0d);
    t.execute(0x0a);
    t.print('b');
    assert_eq!(t.dump_visible(), "a  \nb  \n");
    t.execute(0x08);
    assert_eq!(at(&t), (1, 0));
    t.execute(0x09);
    assert_eq!(at(&t), (1, 2));
    t.execute(0x07);
    assert_eq!(at(&t), (1, 2));
}

#[test]
fn cursor_position_and_status_report() {
    let mut t = TerminalCore::new(5, 10, 0);
    csi(&mut t, &[&[3], &[5]], &[], 'H');
    assert_eq!(at(&t), (2, 4));
    csi(&mut t, &[&[6]], &[], 'n');
    assert_eq!(t.take_write_back(), b"\x1b[3;5R".to_vec());
    assert!(t.take_write_back().is_empty());
    csi(&mut t, &[&[5]], &[], 'n');
    assert!(t.take_write_back().is_empty());
}

#[test]
fn cursor_moves_by_csi() {
    let mut t = TerminalCore::new(5, 10, 0);
    csi(&mut t, &[&[3], &[5]], &[], 'H');
    csi(&mut t, &[&[0]], &[], 'A');
    assert_eq!(at(&t), (1, 4));
    csi(&mut t, &[&[2]], &[], 'B');
    assert_eq!(at(&t), (3, 4));
    csi(&mut t, &[&[3]], &[], 'C');
    assert_eq!(at(&t), (3, 7));
    csi(&mut t, &[&[10]], &[], 'D');
    assert_eq!(at(&t), (3, 0));
    csi(&mut t, &[&[4]], &[], 'G');
    assert_eq!(at(&t), (3, 3));
    csi(&mut t, &[&[2]], &[], 'd');
    assert_eq!(at(&t), (1, 3));
    csi(&mut t, &[&[99], &[99]], &[], 'H');
    assert_eq!(at(&t), (4, 9));
    csi(&mut t, &[&[0]], &[], 'H');
    assert_eq!(at(&t), (0, 0));
}

#[test]
fn sgr_sets_and_resets_attributes() {
    let mut t = TerminalCore::new(2, 4, 0);
    csi(&mut t, &[&[1], &[31]], &[], 'm');
    let tpl = t.cursor().template;
    assert!(tpl.flags.contains(CellFlags::BOLD));
    assert_eq!(tpl.fg, Color::Named(NamedColor::Red));
    csi(&mut t, &[&[0]], &[], 'm');
    assert_eq!(t.cursor().template, Cell::default());
    csi(&mut t, &[&[4], &[7]], &[], 'm');
    csi(&mut t, &[], &[], 'm');
    assert_eq!(t.cursor().template, Cell::default());
}

#[test]
fn sgr_extended_colors() {
    let mut t = TerminalCore::new(2, 4, 0);
    csi(&mut t, &[&[38], &[5], &[100]], &[], 'm');
    assert_eq!(t.cursor().template.fg, Color::Indexed(100));
    csi(&mut t, &[&[48], &[2], &[1], &[2], &[3]], &[], 'm');
    assert_eq!(t.cursor().template.bg, Color::Rgb(1, 2, 3));
    csi(&mut t, &[&[38], &[2], &[9]], &[], 'm');
    assert_eq!(t.cursor().template.fg, Color::Rgb(9, 0, 0));
    csi(&mut t, &[&[38], &[7]], &[], 'm');
    assert_eq!(t.cursor().template.fg, Color::Rgb(9, 0, 0));
    csi(&mut t, &[&[94], &[103]], &[], 'm');
    assert_eq!(t.cursor().template.fg, Color::Named(NamedColor::BrightBlue));
    assert_eq!(t.cursor().template.bg, Color::Named(NamedColor::BrightYellow));
    csi(&mut t, &[&[39], &[49]], &[], 'm');
    assert_eq!(t.cursor().template.fg, Color::Named(NamedColor::Foreground));
    assert_eq!(t.cursor().template.bg, Color::Named(NamedColor::Background));
    csi(&mut t, &[&[42]], &[], 'm');
    assert_eq!(t.cursor().template.bg, Color::Named(NamedColor::Green));
}

#[test]
fn sgr_flag_pairs() {
    let mut t = TerminalCore::new(2, 4, 0);
    csi(&mut t, &[&[1], &[2], &[3], &[4], &[5], &[7], &[8], &[9]], &[], 'm');
    let f = t.cursor().template.flags;
    for m in [
        CellFlags::BOLD,
        CellFlags::DIM,
        CellFlags::ITALIC,
        CellFlags::UNDERLINE,
        CellFlags::BLINK,
        CellFlags::INVERSE,
        CellFlags::HIDDEN,
        CellFlags::STRIKEOUT,
    ] {
        assert!(f.contains(m));
    }
    csi(&mut t, &[&[22], &[23], &[24], &[25], &[27], &[28], &[29]], &[], 'm');
    assert_eq!(t.cursor().template.flags, CellFlags::empty());
}

#[test]
fn printed_cells_take_the_template() {
    let mut t = TerminalCore::new(2, 4, 0);
    csi(&mut t, &[&[1], &[32]], &[], 'm');
    t.print('x');
    let cell = t.active_grid().screen_row(0)[0];
    assert_eq!(cell.c, 'x');
    assert_eq!(cell.fg, Color::Named(NamedColor::Green));
    assert!(cell.flags.contains(CellFlags::BOLD));
}

#[test]
fn alternate_screen_keeps_main_screen() {
    let mut t = TerminalCore::new(2, 3, 0);
    print_str(&mut t, "ab");
    csi(&mut t, &[&[1049], &[2004]], &[b'?'], 'h');
    assert!(t.mode().contains(TerminalMode::ALT_SCREEN));
    assert!(t.mode().contains(TerminalMode::BRACKETED_PASTE));
    assert_eq!(t.dump_visible(), "   \n   \n");
    print_str(&mut t, "zz");
    assert_eq!(t.dump_visible(), "zz \n   \n");
    csi(&mut t, &[&[1049]], &[b'?'], 'l');
    assert!(!t.mode().contains(TerminalMode::ALT_SCREEN));
    assert_eq!(t.dump_visible(), "ab \n   \n");
    csi(&mut t, &[&[1049]], &[b'?'], 'h');
    assert_eq!(t.dump_visible(), "   \n   \n");
}

#[test]
fn dec_modes_set_flags() {
    let mut t = TerminalCore::new(2, 3, 0);
    csi(&mut t, &[&[25]], &[b'?'], 'l');
    assert!(!t.mode().contains(TerminalMode::CURSOR_VISIBLE));
    csi(&mut t, &[&[1000]], &[b'?'], 'h');
    assert!(t.mode().contains(TerminalMode::MOUSE_REPORT));
    assert!(t.mouse_report_active());
    csi(&mut t, &[&[1002]], &[b'?'], 'h');
    assert!(!t.mode().contains(TerminalMode::MOUSE_REPORT));
    assert!(t.mode().contains(TerminalMode::MOUSE_DRAG));
    csi(&mut t, &[&[1003]], &[b'?'], 'l');
    assert!(!t.mouse_report_active());
    csi(&mut t, &[&[1006], &[1004], &[1]], &[b'?'], 'h');
    assert!(t.mode().contains(TerminalMode::MOUSE_SGR));
    assert!(t.mode().contains(TerminalMode::FOCUS_REPORT));
    assert!(t.mode().contains(TerminalMode::DECCKM));
    let before = t.mode().bits();
    csi(&mut t, &[&[9001], &[7777]], &[b'?'], 'h');
    assert_eq!(t.mode().bits(), before);
    t.set_dec_mode(1, false);
    assert!(!t.mode().contains(TerminalMode::DECCKM));
}

#[test]
fn cursor_style_sequence() {
    let mut t = TerminalCore::new(2, 3, 0);
    csi(&mut t, &[&[2]], &[b' '], 'q');
    assert_eq!(t.cursor_style(), CursorStyle::Block);
    csi(&mut t, &[&[0]], &[b' '], 'q');
    assert_eq!(t.cursor_style(), CursorStyle::BlinkBlock);
    csi(&mut t, &[&[3]], &[b' '], 'q');
    assert_eq!(t.cursor_style(), CursorStyle::BlinkUnderline);
    csi(&mut t, &[&[4]], &[b' '], 'q');
    assert_eq!(t.cursor_style(), CursorStyle::Underline);
    csi(&mut t, &[&[5]], &[b' '], 'q');
    assert_eq!(t.cursor_style(), CursorStyle::BlinkBar);
    csi(&mut t, &[&[6]], &[b' '], 'q');
    assert_eq!(t.cursor_style(), CursorStyle::Bar);
    csi(&mut t, &[&[9]], &[b' '], 'q');
    assert_eq!(t.cursor_style(), CursorStyle::BlinkBlock);
    assert_eq!(CursorStyle::Bar.code(), 3);
    assert_eq!(CursorStyle::Hidden.code(), 0);
}

#[test]
fn escape_sequences() {
    let mut t = TerminalCore::new(3, 4, 0);
    csi(&mut t, &[&[2], &[3]], &[], 'H');
    t.esc_dispatch(&[], false, b'7');
    csi(&mut t, &[&[1], &[1]], &[], 'H');
    t.esc_dispatch(&[], false, b'8');
    assert_eq!(at(&t), (1, 2));
    t.esc_dispatch(&[], false, b'=');
    assert!(t.mode().contains(TerminalMode::DECKPAM));
    t.esc_dispatch(&[], false, b'>');
    assert!(!t.mode().contains(TerminalMode::DECKPAM));
    t.esc_dispatch(&[b'('], false, b'=');
    assert!(!t.mode().contains(TerminalMode::DECKPAM));
}

#[test]
fn reverse_index_at_top_scrolls_down() {
    let mut t = TerminalCore::new(3, 2, 0);
    print_str(&mut t, "ab");
    csi(&mut t, &[&[1], &[1]], &[], 'H');
    t.esc_dispatch(&[], false, b'M');
    assert_eq!(t.dump_visible(), "  \nab\n  \n");
    assert_eq!(at(&t), (0, 0));
}

#[test]
fn ignored_sequences_change_nothing() {
    let mut t = TerminalCore::new(3, 4, 0);
    print_str(&mut t, "abc");
    let dump = t.dump_visible();
    let mode = t.mode().bits();
    let cur = at(&t);
    let p: Vec<Vec<u16>> = vec![vec![2]];
    t.csi_dispatch(&p, &[], true, 'J');
    csi(&mut t, &[&[8]], &[], 't');
    csi(&mut t, &[&[0]], &[b'?'], 'u');
    csi(&mut t, &[&[0]], &[b'>'], 'm');
    t.esc_dispatch(&[], true, b'=');
    t.esc_dispatch(&[], false, b'\\');
    assert_eq!(t.dump_visible(), dump);
    assert_eq!(t.mode().bits(), mode);
    assert_eq!(at(&t), cur);
    assert_eq!(t.cursor().template, Cell::default());
}

#[test]
fn erase_sequences() {
    let mut t = TerminalCore::new(2, 4, 0);
    print_str(&mut t, "abcd");
    t.execute(0x0d);
    t.execute(0x0a);
    print_str(&mut t, "efgh");
    csi(&mut t, &[&[1], &[2]], &[], 'H');
    csi(&mut t, &[&[0]], &[], 'K');
    assert_eq!(t.dump_visible(), "a   \nefgh\n");
    csi(&mut t, &[&[2], &[2]], &[], 'H');
    csi(&mut t, &[&[2]], &[], 'X');
    assert_eq!(t.dump_visible(), "a   \ne  h\n");
    csi(&mut t, &[&[2]], &[], 'J');
    assert_eq!(t.dump_visible(), "    \n    \n");
}

#[test]
fn insert_and_delete_line_sequences() {
    let mut t = TerminalCore::new(3, 1, 0);
    for (i, c) in "abc".chars().enumerate() {
        csi(&mut t, &[&[(i + 1) as u16], &[1]], &[], 'H');
        t.print(c);
    }
    csi(&mut t, &[&[2], &[1]], &[], 'H');
    csi(&mut t, &[&[1]], &[], 'L');
    assert_eq!(t.dump_visible(), "a\n \nb\n");
    csi(&mut t, &[&[2]], &[], 'M');
    assert_eq!(t.dump_visible(), "a\n \n \n");
}

#[test]
fn paste_framing() {
    let mut t = TerminalCore::new(2, 3, 0);
    assert_eq!(t.paste_bytes(b"ls"), b"ls".to_vec());
    csi(&mut t, &[&[2004]], &[b'?'], 'h');
    assert_eq!(t.paste_bytes(b"ls"), b"\x1b[200~ls\x1b[201~".to_vec());
    assert_eq!(t.paste_bytes(b""), b"\x1b[200~\x1b[201~".to_vec());
}

#[test]
fn key_input_follows_cursor_key_mode() {
    let mut t = TerminalCore::new(2, 3, 0);
    let none = KeyModifiers::default();
    let ctrl = KeyModifiers { ctrl: true, ..KeyModifiers::default() };
    assert_eq!(t.key_input(none, NamedKey::ArrowUp), Some(b"\x1b[A".to_vec()));
    assert_eq!(t.key_input(ctrl, NamedKey::ArrowUp), Some(b"\x1b[1;5A".to_vec()));
    csi(&mut t, &[&[1]], &[b'?'], 'h');
    assert_eq!(t.key_input(none, NamedKey::ArrowUp), Some(b"\x1bOA".to_vec()));
    assert_eq!(t.key_input(none, NamedKey::F1), Some(b"\x1bOP".to_vec()));
    assert_eq!(t.key_input(none, NamedKey::Other), None);
}

#[test]
fn focus_reports() {
    let mut t = TerminalCore::new(2, 3, 0);
    assert_eq!(t.focus_report(true), None);
    csi(&mut t, &[&[1004]], &[b'?'], 'h');
    assert_eq!(t.focus_report(true), Some(b"\x1b[I".to_vec()));
    assert_eq!(t.focus_report(false), Some(b"\x1b[O".to_vec()));
}

#[test]
fn scrolling_and_printing_returns_to_bottom() {
    let mut t = TerminalCore::new(2, 2, 10);
    for _ in 0..4 {
        t.print('x');
        t.execute(0x0d);
        t.execute(0x0a);
    }
    assert_eq!(t.active_grid().buffer_len() - t.grid_rows(), 3);
    t.scroll(2);
    assert_eq!(t.active_grid().viewport_offset(), 2);
    assert_eq!(t.viewport_row_to_buffer_index(0), 1);
    assert_eq!(t.buffer_index_to_viewport_row(1), 0);
    t.scroll(100);
    assert_eq!(t.active_grid().viewport_offset(), 3);
    t.scroll_to_bottom();
    assert_eq!(t.active_grid().viewport_offset(), 0);
    t.scroll(1);
    t.print('y');
    assert_eq!(t.active_grid().viewport_offset(), 0);
}

#[test]
fn terminal_get_text_and_resize() {
    let mut t = TerminalCore::new(2, 5, 0);
    print_str(&mut t, "hello");
    assert_eq!(t.get_text(Point { row: 0, col: 1 }, Point { row: 0, col: 3 }), "ell");
    t.resize(3, 2);
    assert_eq!(t.grid_rows(), 3);
    assert_eq!(t.grid_cols(), 2);
    csi(&mut t, &[&[1049]], &[b'?'], 'h');
    assert_eq!(t.grid_rows(), 3);
    assert_eq!(t.grid_cols(), 2);
}
