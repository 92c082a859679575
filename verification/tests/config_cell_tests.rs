use specula::cell::{Cell, CellFlags, Color, NamedColor, Point};
use specula::config::{
    parse_hex_color, parse_style, parse_weight, AnsiColors, ColorPair, ColorsConfig, FontSlant,
    FontStyleConfig, FontWeight, ShellConfig,
};
use specula::selection::{Selection, SelectionKind};

#[test]
fn hex_colors() {
    assert_eq!(parse_hex_color("#1e90ff"), Some([0x1e, 0x90, 0xff]));
    assert_eq!(parse_hex_color("#FFFFFF"), Some([255, 255, 255]));
    assert_eq!(parse_hex_color("#+1+a00"), Some([1, 10, 0]));
    assert_eq!(parse_hex_color("1e90ff"), None);
    assert_eq!(parse_hex_color("#1e90f"), None);
    assert_eq!(parse_hex_color("#1e90fg"), None);
    assert_eq!(parse_hex_color("#1e90ff0"), None);
    assert_eq!(parse_hex_color(""), None);
}

#[test]
fn hex_color_roundtrip_example() {
    let (r, g, b) = (0x12u8, 0xabu8, 0x07u8);
    let text = format!("#{:02x}{:02x}{:02x}", r, g, b);
    assert_eq!(parse_hex_color(&text), Some([r, g, b]));
}

#[test]
fn font_weights() {
    assert_eq!(parse_weight("bold"), FontWeight(FontWeight::BOLD));
    assert_eq!(parse_weight("BOLD"), FontWeight(700));
    assert_eq!(parse_weight("ExtraLight"), FontWeight(200));
    assert_eq!(parse_weight("regular"), FontWeight(400));
    assert_eq!(parse_weight("semibold"), FontWeight(600));
    assert_eq!(parse_weight("black"), FontWeight(900));
    assert_eq!(parse_weight("350"), FontWeight(350));
    assert_eq!(parse_weight("+500"), FontWeight(500));
    assert_eq!(parse_weight("65535"), FontWeight(65535));
    assert_eq!(parse_weight("65536"), FontWeight(400));
    assert_eq!(parse_weight("heavy"), FontWeight(400));
    assert_eq!(parse_weight(""), FontWeight(400));
}

#[test]
fn font_styles() {
    assert_eq!(parse_style("italic"), FontSlant::Italic);
    assert_eq!(parse_style("Oblique"), FontSlant::Oblique);
    assert_eq!(parse_style("normal"), FontSlant::Normal);
    assert_eq!(parse_style("slanted"), FontSlant::Normal);
}

#[test]
fn font_style_defaults_fill_in() {
    let c = FontStyleConfig { family: None, weight: Some("Bold".to_string()), style: None };
    let (family, weight, style) = c.resolve("Mono", FontWeight(400), FontSlant::Italic);
    assert_eq!(family, "Mono");
    assert_eq!(weight, FontWeight(700));
    assert_eq!(style, FontSlant::Italic);
    let d = FontStyleConfig {
        family: Some("Sans".to_string()),
        weight: None,
        style: Some("oblique".to_string()),
    };
    let (family, weight, style) = d.resolve("Mono", FontWeight(300), FontSlant::Normal);
    assert_eq!(family, "Sans");
    assert_eq!(weight, FontWeight(300));
    assert_eq!(style, FontSlant::Oblique);
}

#[test]
fn shell_from_environment_value() {
    let s = ShellConfig::from_shell_var(Some("/bin/zsh".to_string()));
    assert_eq!(s.program, "/bin/zsh");
    assert!(s.args.is_empty());
    let d = ShellConfig::from_shell_var(None);
    assert_eq!(d.program, "sh");
}

#[test]
fn default_colors_and_palette() {
    let c = ColorsConfig::default();
    assert_eq!(c.to_cursor_colors(), [[0, 0, 0], [255, 255, 255]]);
    let p = c.to_palette();
    assert_eq!(p.len(), 18);
    for i in 0..16u8 {
        assert_eq!(p[i as usize], NamedColor::from_index(i).unwrap().into_color());
    }
    assert_eq!(p[16], [255, 255, 255]);
    assert_eq!(p[17], [0, 0, 0]);
    let mut custom = c;
    custom.primary = ColorPair { foreground: [1, 2, 3], background: [4, 5, 6] };
    custom.bright.red = [9, 9, 9];
    let q = custom.to_palette();
    assert_eq!(q[9], [9, 9, 9]);
    assert_eq!(q[16], [1, 2, 3]);
    assert_eq!(q[17], [4, 5, 6]);
    let ime = ColorsConfig { ime: ColorPair { foreground: [7, 7, 7], background: [8, 8, 8] }, ..c };
    assert_eq!(ime.to_ime_colors(), [[7, 7, 7], [8, 8, 8]]);
    let normal = AnsiColors::default();
    assert_eq!(normal.blue, [0, 0, 238]);
}

#[test]
fn named_colors() {
    assert_eq!(NamedColor::from_index(0), Some(NamedColor::Black));
    assert_eq!(NamedColor::from_index(17), Some(NamedColor::Background));
    assert_eq!(NamedColor::from_index(18), None);
    assert_eq!(NamedColor::BrightBlue.index(), 12);
    assert_eq!(NamedColor::BrightBlue.into_color(), [92, 92, 255]);
    assert_eq!(NamedColor::Foreground.into_color(), [229, 229, 229]);
    for i in 0..18u8 {
        assert_eq!(NamedColor::from_index(i).unwrap().index(), i);
    }
}

#[test]
fn cell_defaults_and_flags() {
    let c = Cell::default();
    assert_eq!(c, Cell::blank());
    assert_eq!(c.c, ' ');
    assert_eq!(c.fg, Color::Named(NamedColor::Foreground));
    assert_eq!(c.bg, Color::Named(NamedColor::Background));
    let mut f = CellFlags::empty();
    f.insert(CellFlags::BOLD | CellFlags::ITALIC);
    assert!(f.contains(CellFlags::BOLD));
    assert!(f.contains(CellFlags::BOLD | CellFlags::ITALIC));
    assert!(!f.contains(CellFlags::BOLD | CellFlags::DIM));
    f.remove(CellFlags::BOLD);
    assert_eq!(f.bits(), CellFlags::ITALIC);
    assert_eq!(CellFlags::from_bits_truncate(0xffff).bits(), CellFlags::ALL);
}

#[test]
fn point_order() {
    let a = Point { row: 1, col: 5 };
    let b = Point { row: 2, col: 0 };
    assert!(a.before(&b));
    assert!(!b.before(&a));
    assert!(!a.before(&a));
    assert!(Point { row: 1, col: 4 }.before(&a));
    assert_eq!(a < b, a.before(&b));
}

#[test]
fn click_kinds_cycle() {
    assert_eq!(SelectionKind::default(), SelectionKind::Character);
    assert_eq!(SelectionKind::Character.next(), SelectionKind::Word);
    assert_eq!(SelectionKind::Word.next(), SelectionKind::Line);
    assert_eq!(SelectionKind::Line.next(), SelectionKind::Character);
    let s = Selection::default();
    assert_eq!(s.anchor, Point { row: 0, col: 0 });
    assert_eq!(s.kind, SelectionKind::Character);
}
