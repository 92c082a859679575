use specula::atlas::{AtlasPacker, AtlasSlot, GlyphCache, GlyphPlacement};
use specula::cell::{Color, NamedColor, Point};
use specula::config::{face_matches, hex_color_is_readable, slant_of_lowered, weight_of_lowered, resolve_variant, ColorsConfig, FontSlant, FontStyleConfig, FontWeight};
use specula::grid::Grid;
use specula::preedit::{layout_preedit, PreeditCell, PREEDIT_CELL_LIMIT};
use specula::render::rgb_to_rgba;
use specula::selection::{Selection, SelectionKind};
use specula::terminal::CursorStyle;

fn cell(row: usize, col: usize, c: char, inverted: bool) -> PreeditCell {
    PreeditCell { row, col, c, inverted }
}

#[test]
fn rgba_colors() {
    assert_eq!(rgb_to_rgba([1, 2, 3]), [1, 2, 3, 255]);
    let palette = ColorsConfig::default().to_palette();
    assert_eq!(Color::Named(NamedColor::Red).color_to_rgba(&palette), [205, 0, 0, 255]);
    assert_eq!(Color::Named(NamedColor::Foreground).color_to_rgba(&palette), [255, 255, 255, 255]);
    assert_eq!(Color::Indexed(5).color_to_rgba(&palette), [205, 0, 205, 255]);
    assert_eq!(Color::Indexed(16).color_to_rgba(&palette), [0, 0, 0, 255]);
    assert_eq!(Color::Indexed(21).color_to_rgba(&palette), [0, 0, 255, 255]);
    assert_eq!(Color::Indexed(196).color_to_rgba(&palette), [255, 0, 0, 255]);
    assert_eq!(Color::Indexed(110).color_to_rgba(&palette), [135, 175, 215, 255]);
    assert_eq!(Color::Indexed(231).color_to_rgba(&palette), [255, 255, 255, 255]);
    assert_eq!(Color::Indexed(232).color_to_rgba(&palette), [8, 8, 8, 255]);
    assert_eq!(Color::Indexed(255).color_to_rgba(&palette), [238, 238, 238, 255]);
    assert_eq!(Color::Rgb(9, 8, 7).color_to_rgba(&palette), [9, 8, 7, 255]);
}

#[test]
fn cursor_placement_for_drawing() {
    let mut g = Grid::new(3, 4, 0);
    g.cursor_goto(1, 2);
    assert_eq!(g.cursor_uniform(CursorStyle::Block, true, 0, None), ([6, 7], 1));
    assert_eq!(g.cursor_uniform(CursorStyle::Block, false, 0, None), ([6, 7], 0));
    assert_eq!(g.cursor_uniform(CursorStyle::BlinkBar, true, 0, None), ([6, 7], 6));
    assert_eq!(g.cursor_uniform(CursorStyle::Bar, true, 0, None), ([6, 7], 3));
    let bar = Some(Point { row: 2, col: 1 });
    assert_eq!(g.cursor_uniform(CursorStyle::Block, true, 3, bar), ([9, 10], 3));
    assert_eq!(g.cursor_uniform(CursorStyle::Underline, true, 3, None), ([0, 0], 2));
    assert_eq!(g.cursor_uniform(CursorStyle::Block, false, 3, bar), ([9, 10], 0));
}

#[test]
fn cursor_on_wide_character_covers_two_cells() {
    let mut g = Grid::new(2, 4, 0);
    g.write_char('漢');
    g.cursor_goto(0, 0);
    assert_eq!(g.cursor_uniform(CursorStyle::Block, true, 0, None), ([0, 2], 1));
    assert_eq!(g.cursor_uniform(CursorStyle::Bar, true, 0, None), ([0, 1], 3));
}

#[test]
fn selection_cells_for_drawing() {
    let mut g = Grid::new(2, 3, 10);
    for _ in 0..3 {
        g.linefeed();
    }
    assert_eq!(g.buffer_len(), 4);
    assert_eq!(g.selection_cell_index(Point { row: 3, col: 1 }), 4);
    assert_eq!(g.selection_cell_index(Point { row: 3, col: 10 }), 6);
    assert_eq!(g.selection_cell_index(Point { row: 0, col: 1 }), 0);
    g.scroll(2);
    assert_eq!(g.selection_cell_index(Point { row: 0, col: 1 }), 1);
    let range = Some((Point { row: 0, col: 2 }, Point { row: 1, col: 0 }));
    assert_eq!(g.selection_cells(range), [2, 3]);
    assert_eq!(g.selection_cells(None), [0, 0]);
}

#[test]
fn pointer_cells_and_selection_text() {
    let mut g = Grid::new(2, 5, 0);
    for c in "ab cd".chars() {
        g.write_char(c);
    }
    assert_eq!(g.cursor_cell(7, 9), Point { row: 1, col: 4 });
    assert_eq!(g.cursor_cell(0, 2), Point { row: 0, col: 2 });
    assert_eq!(g.cursor_boundary_cell(7, 9), Point { row: 1, col: 5 });
    let s = Selection { anchor: Point { row: 0, col: 4 }, end: Point { row: 0, col: 3 }, kind: SelectionKind::Character };
    assert_eq!(g.selection_text(&s), "cd\n");
    let w = Selection { anchor: Point { row: 0, col: 1 }, end: Point { row: 0, col: 1 }, kind: SelectionKind::Word };
    assert_eq!(g.selection_text(&w), "ab");
}

#[test]
fn preedit_plain_text() {
    let l = layout_preedit("ab", None, &[false, false], Point { row: 0, col: 0 }, 2, 3).unwrap();
    assert_eq!(l.glyphs, vec![cell(0, 0, 'a', false), cell(0, 1, 'b', false)]);
    assert!(l.empties.is_empty());
    assert_eq!(l.bar_cursor, None);
    assert_eq!(l.end, Point { row: 0, col: 2 });
}

#[test]
fn preedit_with_input_method_cursor() {
    let l = layout_preedit("ab", Some((1, 1)), &[false, false], Point { row: 0, col: 0 }, 2, 5).unwrap();
    assert_eq!(l.glyphs, vec![cell(0, 0, 'a', false), cell(0, 1, 'b', false)]);
    assert_eq!(l.bar_cursor, Some(Point { row: 0, col: 1 }));
    let m = layout_preedit("abc", Some((0, 2)), &[false, false, false], Point { row: 1, col: 1 }, 2, 5).unwrap();
    assert_eq!(m.glyphs, vec![cell(1, 1, 'a', true), cell(1, 2, 'b', true), cell(1, 3, 'c', false)]);
    assert_eq!(m.bar_cursor, Some(Point { row: 1, col: 1 }));
    assert_eq!(m.end, Point { row: 1, col: 4 });
    let u = layout_preedit("日本", Some((3, 6)), &[false, false], Point { row: 0, col: 0 }, 1, 10).unwrap();
    assert_eq!(u.glyphs, vec![cell(0, 0, '日', false), cell(0, 2, '本', true)]);
    assert_eq!(u.empties, vec![cell(0, 1, '日', false), cell(0, 3, '本', true)]);
    assert_eq!(u.bar_cursor, Some(Point { row: 0, col: 4 }));
    let e = layout_preedit("", Some((4, 9)), &[], Point { row: 0, col: 0 }, 1, 10).unwrap();
    assert!(e.glyphs.is_empty() && e.empties.is_empty());
    assert_eq!(e.bar_cursor, None);
}

#[test]
fn preedit_wraps_and_stops_on_last_line() {
    let l = layout_preedit("abcd", None, &[false; 4], Point { row: 0, col: 1 }, 2, 3).unwrap();
    assert_eq!(
        l.glyphs,
        vec![cell(0, 1, 'a', false), cell(0, 2, 'b', false), cell(1, 0, 'c', false), cell(1, 1, 'd', false)]
    );
    assert_eq!(l.end, Point { row: 1, col: 2 });
    let s = layout_preedit("abcd", None, &[false; 4], Point { row: 0, col: 0 }, 1, 2).unwrap();
    assert_eq!(s.glyphs, vec![cell(0, 0, 'a', false), cell(0, 1, 'b', false)]);
    assert_eq!(s.end, Point { row: 0, col: 2 });
}

#[test]
fn preedit_wide_empty_and_control_characters() {
    let l = layout_preedit("漢 \u{7}x", None, &[false, true, false, false], Point { row: 0, col: 0 }, 1, 10).unwrap();
    assert_eq!(l.glyphs, vec![cell(0, 0, '漢', false), cell(0, 3, 'x', false)]);
    assert_eq!(l.empties, vec![cell(0, 1, '漢', false), cell(0, 2, ' ', false)]);
    assert_eq!(l.end, Point { row: 0, col: 4 });
    assert!(layout_preedit("a\u{17D8}", None, &[false, false], Point { row: 0, col: 0 }, 1, 10).is_none());
}

#[test]
fn preedit_cell_limit() {
    let text: String = std::iter::repeat('a').take(300).collect();
    let l = layout_preedit(&text, None, &vec![false; 300], Point { row: 0, col: 0 }, 100, 100).unwrap();
    assert_eq!(l.glyphs.len(), PREEDIT_CELL_LIMIT);
    assert!(l.empties.is_empty());
    let spaces: String = std::iter::repeat(' ').take(300).collect();
    let s = layout_preedit(&spaces, None, &vec![true; 300], Point { row: 0, col: 0 }, 100, 100).unwrap();
    assert_eq!(s.empties.len(), PREEDIT_CELL_LIMIT + 1);
}

#[test]
fn atlas_packing() {
    let mut p = AtlasPacker::new();
    assert_eq!(p, AtlasPacker { cursor_x: 1, cursor_y: 1, row_height: 0 });
    assert_eq!(p.place(10, 20), AtlasSlot::At(1, 1));
    assert_eq!(p, AtlasPacker { cursor_x: 12, cursor_y: 1, row_height: 20 });
    assert_eq!(p.place(0, 5), AtlasSlot::Empty);
    assert_eq!(p.place(5, 4), AtlasSlot::At(12, 1));
    assert_eq!(p.place(2040, 5), AtlasSlot::At(0, 22));
    assert_eq!(p, AtlasPacker { cursor_x: 2041, cursor_y: 22, row_height: 5 });
    let before = p;
    assert_eq!(p.place(3000, 1), AtlasSlot::Full);
    assert_eq!(p, before);
    assert_eq!(p.place(10, 2100), AtlasSlot::Full);
}

#[test]
fn font_variant_resolution() {
    let none: Option<FontStyleConfig> = None;
    assert_eq!(resolve_variant(&none, "Mono", FontWeight(700), FontSlant::Normal), ("Mono", FontWeight(700), FontSlant::Normal));
    let some = Some(FontStyleConfig { family: Some("Serif".to_string()), weight: Some("light".to_string()), style: None });
    assert_eq!(resolve_variant(&some, "Mono", FontWeight(700), FontSlant::Italic), ("Serif", FontWeight(300), FontSlant::Italic));
    assert!(face_matches(FontWeight(700), FontSlant::Normal, FontWeight(600), FontSlant::Normal));
    assert!(face_matches(FontWeight(500), FontSlant::Italic, FontWeight(600), FontSlant::Italic));
    assert!(!face_matches(FontWeight(801), FontSlant::Normal, FontWeight(700), FontSlant::Normal));
    assert!(!face_matches(FontWeight(700), FontSlant::Oblique, FontWeight(700), FontSlant::Italic));
}

#[test]
fn screen_size_for_window() {
    assert_eq!(Grid::size_for(800, 600, 10, 20), (30, 80));
    assert_eq!(Grid::size_for(5, 5, 10, 20), (1, 1));
    assert_eq!(Grid::size_for(u32::MAX, u32::MAX, 1, 1), (Grid::MAX_ROWS, Grid::MAX_COLS));
}

#[test]
fn hex_color_readability() {
    assert!(hex_color_is_readable("#123456"));
    assert!(hex_color_is_readable("123"));
    assert!(!hex_color_is_readable("#ab€x"));
    assert!(hex_color_is_readable("#abé12"));
    assert!(!hex_color_is_readable("#aé123"));
    assert!(!hex_color_is_readable("#abc€"));
    assert!(hex_color_is_readable("#zbc€"));
}

#[test]
fn glyph_cache_finds_placed_glyphs() {
    let mut cache = GlyphCache::new();
    assert_eq!(cache.get('a'), None);
    let a = cache.place('a', 10, 20, 1, -2);
    assert_eq!(a, GlyphPlacement { slot: AtlasSlot::At(1, 1), width: 10, height: 20, xmin: 1, ymin: -2 });
    assert_eq!(cache.get('a'), Some(a));
    let space = cache.place(' ', 0, 0, 0, 0);
    assert_eq!(space.slot, AtlasSlot::Empty);
    assert_eq!(cache.get(' '), Some(space));
    let b = cache.place('b', 5, 5, 0, 0);
    assert_eq!(b.slot, AtlasSlot::At(12, 1));
    assert_eq!(cache.get('a'), Some(a));
    let huge = cache.place('c', 5000, 5, 0, 0);
    assert_eq!(huge.slot, AtlasSlot::Full);
    assert_eq!(cache.get('c'), None);
    assert_eq!(cache.place('d', 3, 3, 0, 0).slot, AtlasSlot::At(18, 1));
}

#[test]
fn lowered_font_names() {
    assert_eq!(weight_of_lowered("bold"), FontWeight(700));
    assert_eq!(weight_of_lowered("BOLD"), FontWeight(400));
    assert_eq!(weight_of_lowered("extralight"), FontWeight(200));
    assert_eq!(weight_of_lowered("350"), FontWeight(350));
    assert_eq!(slant_of_lowered("italic"), FontSlant::Italic);
    assert_eq!(slant_of_lowered("Italic"), FontSlant::Normal);
    assert_eq!(slant_of_lowered("oblique"), FontSlant::Oblique);
}
