use specula::cell::{Cell, CellFlags, Color, NamedColor, Point};
use specula::grid::Grid;
use specula::selection::{Selection, SelectionKind};

fn row_text(g: &Grid, row: usize) -> String {
    g.screen_row(row).iter().map(|c| c.c).collect()
}

fn write_str(g: &mut Grid, s: &str) {
    for c in s.chars() {
        g.write_char(c);
    }
}

#[test]
fn new_grid_is_blank() {
    let g = Grid::new(3, 4, 10);
    assert_eq!(g.grid_rows(), 3);
    assert_eq!(g.grid_cols(), 4);
    assert_eq!(g.buffer_len(), 3);
    assert_eq!(g.cursor().point, Point { row: 0, col: 0 });
    assert!(!g.cursor().pending_wrap);
    for r in 0..3 {
        assert_eq!(g.screen_row(r).len(), 4);
        assert!(g.screen_row(r).iter().all(|c| *c == Cell::default()));
    }
}

#[test]
fn cursor_moves_are_clamped() {
    let mut g = Grid::new(5, 10, 0);
    g.cursor_down(2);
    g.cursor_right(3);
    assert_eq!(g.cursor().point, Point { row: 2, col: 3 });
    g.cursor_up(10);
    assert_eq!(g.cursor().point.row, 0);
    g.cursor_left(10);
    assert_eq!(g.cursor().point.col, 0);
    g.cursor_down(100);
    g.cursor_right(100);
    assert_eq!(g.cursor().point, Point { row: 4, col: 9 });
    g.cursor_goto(1, 2);
    assert_eq!(g.cursor().point, Point { row: 1, col: 2 });
    g.cursor_goto_row(7);
    assert_eq!(g.cursor().point, Point { row: 4, col: 2 });
    g.cursor_goto_col(8);
    assert_eq!(g.cursor().point, Point { row: 4, col: 8 });
}

#[test]
fn tab_moves_to_next_multiple_of_eight() {
    let mut g = Grid::new(2, 20, 0);
    g.tab();
    assert_eq!(g.cursor().point.col, 8);
    g.tab();
    assert_eq!(g.cursor().point.col, 16);
    g.tab();
    assert_eq!(g.cursor().point.col, 19);
    g.cursor_goto_col(7);
    g.tab();
    assert_eq!(g.cursor().point.col, 8);
}

#[test]
fn backspace_and_carriage_return() {
    let mut g = Grid::new(2, 5, 0);
    g.cursor_goto(1, 3);
    g.backspace();
    assert_eq!(g.cursor().point, Point { row: 1, col: 2 });
    g.carriage_return();
    assert_eq!(g.cursor().point, Point { row: 1, col: 0 });
    g.backspace();
    assert_eq!(g.cursor().point, Point { row: 1, col: 0 });
}

#[test]
fn write_narrow_characters_and_pending_wrap() {
    let mut g = Grid::new(2, 3, 10);
    write_str(&mut g, "abc");
    assert_eq!(row_text(&g, 0), "abc");
    assert_eq!(g.cursor().point, Point { row: 0, col: 2 });
    assert!(g.cursor().pending_wrap);
    g.write_char('d');
    assert!(g.screen_row(0)[2].flags.contains(CellFlags::WRAPLINE));
    assert_eq!(row_text(&g, 1), "d  ");
    assert_eq!(g.cursor().point, Point { row: 1, col: 1 });
    assert!(!g.cursor().pending_wrap);
}

#[test]
fn write_control_character_writes_nothing() {
    let mut g = Grid::new(2, 3, 10);
    g.write_char('\u{7}');
    assert_eq!(row_text(&g, 0), "   ");
    assert_eq!(g.cursor().point, Point { row: 0, col: 0 });
}

#[test]
fn write_wide_character_takes_two_cells() {
    let mut g = Grid::new(2, 4, 10);
    g.write_char('あ');
    let row = g.screen_row(0);
    assert_eq!(row[0].c, 'あ');
    assert!(row[0].flags.contains(CellFlags::WIDE_CHAR));
    assert_eq!(row[1].c, ' ');
    assert!(row[1].flags.contains(CellFlags::WIDE_CHAR_SPACER));
    assert_eq!(g.cursor().point, Point { row: 0, col: 2 });
}

#[test]
fn wide_character_that_does_not_fit_moves_to_next_line() {
    let mut g = Grid::new(2, 3, 10);
    g.cursor_goto_col(2);
    g.write_char('漢');
    assert_eq!(g.screen_row(0)[2].c, ' ');
    assert_eq!(g.screen_row(1)[0].c, '漢');
    assert!(g.screen_row(1)[1].flags.contains(CellFlags::WIDE_CHAR_SPACER));
    assert_eq!(g.cursor().point, Point { row: 1, col: 2 });
}

#[test]
fn overwriting_half_of_a_wide_character_clears_the_other_half() {
    let mut g = Grid::new(1, 4, 0);
    g.write_char('漢');
    g.cursor_goto_col(1);
    g.write_char('x');
    let row = g.screen_row(0);
    assert_eq!(row[0].c, ' ');
    assert_eq!(row[0].flags.bits(), 0);
    assert_eq!(row[1].c, 'x');
}

#[test]
fn write_uses_template_attributes() {
    let mut g = Grid::new(1, 4, 0);
    g.cursor_template_mut().fg = Color::Named(NamedColor::Red);
    g.cursor_template_mut().flags.insert(CellFlags::BOLD);
    g.write_char('z');
    let cell = g.screen_row(0)[0];
    assert_eq!(cell.c, 'z');
    assert_eq!(cell.fg, Color::Named(NamedColor::Red));
    assert!(cell.flags.contains(CellFlags::BOLD));
}

#[test]
fn linefeed_at_bottom_scrolls_into_scrollback_up_to_limit() {
    let mut g = Grid::new(2, 2, 1);
    g.write_char('a');
    g.linefeed();
    g.carriage_return();
    g.write_char('b');
    g.linefeed();
    assert_eq!(g.buffer_len(), 3);
    assert_eq!(g.cursor().point.row, 1);
    g.linefeed();
    assert_eq!(g.buffer_len(), 3);
    assert_eq!(g.line_cells(0)[0].c, 'b');
}

#[test]
fn linefeed_with_no_scrollback_keeps_screen_size() {
    let mut g = Grid::new(2, 2, 0);
    g.write_char('a');
    g.linefeed();
    g.linefeed();
    assert_eq!(g.buffer_len(), 2);
    assert_eq!(row_text(&g, 0), "  ");
}

#[test]
fn reverse_index_at_top_inserts_blank_line() {
    let mut g = Grid::new(3, 2, 0);
    g.write_char('a');
    g.cursor_goto(1, 0);
    g.write_char('b');
    g.cursor_goto(2, 0);
    g.write_char('c');
    g.cursor_goto(0, 0);
    g.reverse_index();
    assert_eq!(row_text(&g, 0), "  ");
    assert_eq!(row_text(&g, 1), "a ");
    assert_eq!(row_text(&g, 2), "b ");
    assert_eq!(g.buffer_len(), 3);
    g.cursor_goto(2, 0);
    g.reverse_index();
    assert_eq!(g.cursor().point.row, 1);
}

#[test]
fn insert_and_delete_lines() {
    let mut g = Grid::new(3, 1, 0);
    for (r, c) in ['a', 'b', 'c'].iter().enumerate() {
        g.cursor_goto(r, 0);
        g.write_char(*c);
    }
    g.cursor_goto(1, 0);
    g.insert_lines(1);
    assert_eq!(row_text(&g, 0), "a");
    assert_eq!(row_text(&g, 1), " ");
    assert_eq!(row_text(&g, 2), "b");
    g.delete_lines(5);
    assert_eq!(row_text(&g, 0), "a");
    assert_eq!(row_text(&g, 1), " ");
    assert_eq!(row_text(&g, 2), " ");
    assert_eq!(g.buffer_len(), 3);
}

#[test]
fn erase_display_modes() {
    let mut g = Grid::new(3, 3, 0);
    for r in 0..3 {
        g.cursor_goto(r, 0);
        for c in "xyz".chars() {
            g.write_char(c);
        }
    }
    let mut below = g.clone();
    below.cursor_goto(1, 1);
    below.erase_display(0);
    assert_eq!(row_text(&below, 0), "xyz");
    assert_eq!(row_text(&below, 1), "x  ");
    assert_eq!(row_text(&below, 2), "   ");
    let mut above = g.clone();
    above.cursor_goto(1, 1);
    above.erase_display(1);
    assert_eq!(row_text(&above, 0), "   ");
    assert_eq!(row_text(&above, 1), "  z");
    assert_eq!(row_text(&above, 2), "xyz");
    let mut all = g.clone();
    all.erase_display(2);
    for r in 0..3 {
        assert_eq!(row_text(&all, r), "   ");
    }
    let mut other = g.clone();
    other.erase_display(3);
    assert_eq!(row_text(&other, 0), "xyz");
}

#[test]
fn erase_below_then_above_erases_everything() {
    let mut g = Grid::new(2, 3, 0);
    g.write_char('a');
    g.write_char('b');
    g.cursor_goto(1, 1);
    let mut twice = g.clone();
    twice.erase_display(0);
    twice.erase_display(1);
    let mut once = g.clone();
    once.erase_display(2);
    for r in 0..2 {
        assert_eq!(twice.screen_row(r), once.screen_row(r));
    }
}

#[test]
fn erase_keeps_template_background() {
    let mut g = Grid::new(1, 3, 0);
    g.cursor_template_mut().bg = Color::Indexed(4);
    g.cursor_template_mut().fg = Color::Indexed(2);
    g.erase_row(2);
    for cell in g.screen_row(0) {
        assert_eq!(cell.bg, Color::Indexed(4));
        assert_eq!(cell.fg, Color::Named(NamedColor::Foreground));
        assert_eq!(cell.c, ' ');
    }
}

#[test]
fn erase_row_and_chars() {
    let mut g = Grid::new(1, 5, 0);
    for c in "abcde".chars() {
        g.write_char(c);
    }
    let mut right = g.clone();
    right.cursor_goto_col(2);
    right.erase_row(0);
    assert_eq!(row_text(&right, 0), "ab   ");
    let mut left = g.clone();
    left.cursor_goto_col(2);
    left.erase_row(1);
    assert_eq!(row_text(&left, 0), "   de");
    let mut chars = g.clone();
    chars.cursor_goto_col(1);
    chars.erase_chars(2);
    assert_eq!(row_text(&chars, 0), "a  de");
    let mut many = g.clone();
    many.cursor_goto_col(3);
    many.erase_chars(100);
    assert_eq!(row_text(&many, 0), "abc  ");
}

#[test]
fn clear_blanks_screen() {
    let mut g = Grid::new(2, 2, 0);
    g.cursor_template_mut().bg = Color::Indexed(1);
    g.write_char('q');
    g.clear();
    for r in 0..2 {
        assert!(g.screen_row(r).iter().all(|c| *c == Cell::default()));
    }
}

#[test]
fn save_and_restore_cursor() {
    let mut g = Grid::new(4, 4, 0);
    g.cursor_goto(2, 3);
    g.save_cursor();
    g.cursor_goto(0, 0);
    g.restore_cursor();
    assert_eq!(g.cursor().point, Point { row: 2, col: 3 });
    g.resize(2, 2);
    g.restore_cursor();
    assert_eq!(g.cursor().point, Point { row: 1, col: 1 });
}

#[test]
fn resize_grows_and_shrinks() {
    let mut g = Grid::new(2, 2, 10);
    g.write_char('a');
    g.resize(4, 3);
    assert_eq!(g.grid_rows(), 4);
    assert_eq!(g.grid_cols(), 3);
    assert_eq!(row_text(&g, 0), "a  ");
    assert_eq!(g.buffer_len(), 4);
    g.cursor_goto(3, 0);
    g.resize(2, 1);
    assert_eq!(g.grid_rows(), 2);
    assert_eq!(g.buffer_len(), 4);
    assert_eq!(g.cursor().point, Point { row: 1, col: 0 });
    g.resize(0, 0);
    assert_eq!(g.grid_rows(), 1);
    assert_eq!(g.grid_cols(), 1);
}

#[test]
fn resize_drops_lines_below_cursor_first() {
    let mut g = Grid::new(4, 1, 10);
    g.write_char('a');
    g.resize(2, 1);
    assert_eq!(g.buffer_len(), 2);
    assert_eq!(row_text(&g, 0), "a");
}

#[test]
fn resize_to_same_size_drops_pending_wrap() {
    let mut g = Grid::new(1, 2, 0);
    g.write_char('a');
    g.write_char('b');
    assert!(g.cursor().pending_wrap);
    g.resize(1, 2);
    assert!(!g.cursor().pending_wrap);
    assert_eq!(row_text(&g, 0), "ab");
}

#[test]
fn scroll_is_clamped_to_scrollback() {
    let mut g = Grid::new(2, 1, 10);
    for _ in 0..5 {
        g.linefeed();
    }
    assert_eq!(g.buffer_len(), 6);
    g.scroll(2);
    assert_eq!(g.viewport_offset(), 2);
    g.scroll(100);
    assert_eq!(g.viewport_offset(), 4);
    g.scroll(-1);
    assert_eq!(g.viewport_offset(), 3);
    g.scroll(-100);
    assert_eq!(g.viewport_offset(), 0);
    g.scroll(isize::MAX);
    assert_eq!(g.viewport_offset(), 4);
    g.scroll(isize::MIN);
    assert_eq!(g.viewport_offset(), 0);
    g.scroll(1);
    g.scroll_to_bottom();
    assert_eq!(g.viewport_offset(), 0);
}

#[test]
fn viewport_rows_and_buffer_indices() {
    let mut g = Grid::new(2, 1, 10);
    g.write_char('a');
    g.linefeed();
    g.carriage_return();
    g.write_char('b');
    g.linefeed();
    g.carriage_return();
    g.write_char('c');
    assert_eq!(g.buffer_len(), 3);
    g.scroll(1);
    assert_eq!(g.viewport_row(0)[0].c, 'a');
    assert_eq!(g.viewport_row(1)[0].c, 'b');
    assert_eq!(g.viewport_row_to_buffer_index(1), 1);
    assert_eq!(g.buffer_index_to_viewport_row(0), 0);
    assert_eq!(g.buffer_index_to_viewport_row(2), 2);
    for r in 0..2 {
        let i = g.viewport_row_to_buffer_index(r);
        assert_eq!(g.buffer_index_to_viewport_row(i), r as isize);
    }
    g.scroll_to_bottom();
    assert_eq!(g.buffer_index_to_viewport_row(0), -1);
}

#[test]
fn get_text_between_positions() {
    let mut g = Grid::new(2, 4, 0);
    for c in "abcd".chars() {
        g.write_char(c);
    }
    g.cursor_goto(1, 0);
    for c in "efgh".chars() {
        g.write_char(c);
    }
    assert_eq!(g.get_text(Point { row: 0, col: 1 }, Point { row: 1, col: 1 }), "bcd\nef");
    assert_eq!(g.get_text(Point { row: 0, col: 0 }, Point { row: 1, col: 3 }), "abcd\nefgh\n");
    assert_eq!(g.get_text(Point { row: 0, col: 2 }, Point { row: 0, col: 1 }), "");
    assert_eq!(g.get_text(Point { row: 1, col: 0 }, Point { row: 9, col: 9 }), "efgh\n");
    assert_eq!(g.get_text(Point { row: 5, col: 0 }, Point { row: 9, col: 9 }), "");
}

#[test]
fn get_text_skips_wide_character_spacers() {
    let mut g = Grid::new(1, 4, 0);
    g.write_char('漢');
    g.write_char('x');
    assert_eq!(g.get_text(Point { row: 0, col: 0 }, Point { row: 0, col: 2 }), "漢x");
}

#[test]
fn snap_selection_to_wide_characters() {
    let mut g = Grid::new(1, 4, 0);
    g.write_char('漢');
    let (a, e) = g.snap_selection(Point { row: 0, col: 1 }, Point { row: 0, col: 1 });
    assert_eq!(a, Point { row: 0, col: 0 });
    assert_eq!(e, Point { row: 0, col: 2 });
    let (a, e) = g.snap_selection(Point { row: 0, col: 3 }, Point { row: 7, col: 1 });
    assert_eq!(a, Point { row: 0, col: 3 });
    assert_eq!(e, Point { row: 7, col: 1 });
}

#[test]
fn screen_row_mut_changes_cells() {
    let mut g = Grid::new(2, 2, 0);
    g.screen_row_mut(1)[1].c = 'k';
    assert_eq!(g.screen_row(1)[1].c, 'k');
    assert_eq!(g.line_cells(1)[1].c, 'k');
}

#[test]
fn write_char_with_explicit_width() {
    let mut g = Grid::new(1, 4, 0);
    g.write_char_with_width('a', 0);
    assert_eq!(g.cursor().point.col, 0);
    g.write_char_with_width('a', 2);
    assert!(g.screen_row(0)[1].flags.contains(CellFlags::WIDE_CHAR_SPACER));
    assert_eq!(g.cursor().point.col, 2);
}

#[test]
fn writing_scrolls_view_to_bottom() {
    let mut g = Grid::new(1, 2, 5);
    g.linefeed();
    g.linefeed();
    g.scroll(2);
    assert_eq!(g.viewport_offset(), 2);
    g.write_char('a');
    assert_eq!(g.viewport_offset(), 0);
}

#[test]
fn word_ranges_and_selection_ranges() {
    let mut g = Grid::new(1, 11, 0);
    for c in "foo bar baz".chars() {
        g.write_char(c);
    }
    assert_eq!(g.get_word_range(Point { row: 0, col: 5 }), (4, 6));
    assert_eq!(g.get_word_range(Point { row: 0, col: 3 }), (3, 3));
    assert_eq!(g.get_word_range(Point { row: 0, col: 0 }), (0, 2));
    assert_eq!(g.get_word_range(Point { row: 0, col: 10 }), (8, 10));
    assert_eq!(g.get_word_range(Point { row: 3, col: 1 }), (1, 1));
    let s = Selection { anchor: Point { row: 0, col: 9 }, end: Point { row: 0, col: 5 }, kind: SelectionKind::Character };
    assert_eq!(g.selection_range(&s), (Point { row: 0, col: 5 }, Point { row: 0, col: 9 }));
    let w = Selection { kind: SelectionKind::Word, ..s };
    assert_eq!(g.selection_range(&w), (Point { row: 0, col: 4 }, Point { row: 0, col: 10 }));
    let l = Selection { kind: SelectionKind::Line, ..s };
    assert_eq!(g.selection_range(&l), (Point { row: 0, col: 0 }, Point { row: 0, col: Grid::MAX_COLS }));
    let (b, e) = g.selection_range(&w);
    assert_eq!(g.get_text(b, e), "bar baz\n");
}

#[test]
fn scrolled_view_can_outlast_trimmed_scrollback() {
    let mut g = Grid::new(3, 2, 1);
    for _ in 0..3 {
        g.linefeed();
    }
    assert_eq!(g.buffer_len(), 4);
    g.resize(1, 2);
    assert_eq!(g.buffer_len(), 4);
    g.scroll(10);
    assert_eq!(g.viewport_offset(), 3);
    g.linefeed();
    assert_eq!(g.buffer_len(), 2);
    assert!(g.viewport_offset() > g.buffer_len() - g.grid_rows());
}

#[test]
fn restore_brings_back_the_last_saved_cursor() {
    let mut g = Grid::new(5, 8, 0);
    g.restore_cursor();
    assert_eq!(g.cursor().point, Point { row: 0, col: 0 });
    g.cursor_goto(3, 6);
    g.save_cursor();
    g.cursor_goto(0, 0);
    g.linefeed();
    g.write_char('x');
    g.erase_display(2);
    g.resize(2, 4);
    g.restore_cursor();
    assert_eq!(g.cursor().point, Point { row: 1, col: 3 });
    assert!(!g.cursor().pending_wrap);
}

#[test]
fn resize_keeps_the_view_within_the_scrollback() {
    let mut g = Grid::new(2, 3, 10);
    for _ in 0..5 {
        g.linefeed();
    }
    g.scroll(3);
    assert_eq!(g.viewport_offset(), 3);
    g.resize(4, 0);
    assert_eq!((g.grid_rows(), g.grid_cols()), (4, 1));
    assert_eq!(g.viewport_offset(), 3);
    assert!(g.viewport_offset() <= g.buffer_len() - g.grid_rows());
    g.resize(0, 5);
    assert_eq!((g.grid_rows(), g.grid_cols()), (1, 5));
    assert!(g.viewport_offset() <= g.buffer_len() - g.grid_rows());
}

#[test]
fn buffer_lines_above_the_view_have_negative_rows() {
    let mut g = Grid::new(2, 2, 10);
    for _ in 0..4 {
        g.linefeed();
    }
    g.scroll(1);
    let top = g.viewport_row_to_buffer_index(0);
    assert_eq!(top, 2);
    assert_eq!(g.buffer_index_to_viewport_row(top), 0);
    assert_eq!(g.buffer_index_to_viewport_row(top - 1), -1);
    assert_eq!(g.buffer_index_to_viewport_row(g.viewport_row_to_buffer_index(1)), 1);
}
