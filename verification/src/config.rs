use vstd::prelude::*;

use vstd::string::StringSliceAdditionalSpecFns;

use crate::text::{digits_value, is_digit};

verus! {

/// A foreground and a background colour.
#[derive(Clone, Copy, Debug)]
pub struct ColorPair {
    pub foreground: [u8; 3],
    pub background: [u8; 3],
}

/// The eight ANSI colours of one brightness.
#[derive(Clone, Copy, Debug)]
pub struct AnsiColors {
    pub black: [u8; 3],
    pub red: [u8; 3],
    pub green: [u8; 3],
    pub yellow: [u8; 3],
    pub blue: [u8; 3],
    pub magenta: [u8; 3],
    pub cyan: [u8; 3],
    pub white: [u8; 3],
}

/// The colour scheme: cursor, input method preview, default foreground and background,
/// and the normal and bright ANSI colours.
#[derive(Clone, Copy, Debug)]
pub struct ColorsConfig {
    pub cursor: ColorPair,
    pub ime: ColorPair,
    pub primary: ColorPair,
    pub normal: AnsiColors,
    pub bright: AnsiColors,
}

/// The eight colours of a set, black to white.
pub open spec fn ansi_seq(a: AnsiColors) -> Seq<Seq<u8>> {
    seq![a.black@, a.red@, a.green@, a.yellow@, a.blue@, a.magenta@, a.cyan@, a.white@]
}

/// The palette of the named colours: the eight normal colours, the eight bright
/// ones, then the default foreground and background.
pub open spec fn palette_of(c: ColorsConfig) -> Seq<Seq<u8>> {
    ansi_seq(c.normal) + ansi_seq(c.bright) + seq![c.primary.foreground@, c.primary.background@]
}

impl ColorPair {
    /// The default cursor colours: black on white.
    pub fn default_cursor() -> (r: ColorPair)
        ensures
            r.foreground@ == seq![0u8, 0, 0],
            r.background@ == seq![255u8, 255, 255],
    {
        let r = ColorPair { foreground: [0, 0, 0], background: [255, 255, 255] };
        assert(r.foreground@ =~= seq![0u8, 0, 0]);
        assert(r.background@ =~= seq![255u8, 255, 255]);
        r
    }

    /// The default input method preview colours: white on black.
    pub fn default_ime() -> (r: ColorPair)
        ensures
            r.foreground@ == seq![255u8, 255, 255],
            r.background@ == seq![0u8, 0, 0],
    {
        let r = ColorPair { foreground: [255, 255, 255], background: [0, 0, 0] };
        assert(r.foreground@ =~= seq![255u8, 255, 255]);
        assert(r.background@ =~= seq![0u8, 0, 0]);
        r
    }

    /// The default text colours: white on black.
    pub fn default_primary() -> (r: ColorPair)
        ensures
            r.foreground@ == seq![255u8, 255, 255],
            r.background@ == seq![0u8, 0, 0],
    {
        let r = ColorPair { foreground: [255, 255, 255], background: [0, 0, 0] };
        assert(r.foreground@ =~= seq![255u8, 255, 255]);
        assert(r.background@ =~= seq![0u8, 0, 0]);
        r
    }
}

impl Default for ColorPair {
    fn default() -> (r: ColorPair)
        ensures
            r.foreground@ == seq![0u8, 0, 0],
            r.background@ == seq![255u8, 255, 255],
    {
        ColorPair::default_cursor()
    }
}

/// The normal ANSI colours of xterm.
pub open spec fn default_normal_seq() -> Seq<Seq<u8>> {
    seq![
        seq![0u8, 0, 0],
        seq![205u8, 0, 0],
        seq![0u8, 205, 0],
        seq![205u8, 205, 0],
        seq![0u8, 0, 238],
        seq![205u8, 0, 205],
        seq![0u8, 205, 205],
        seq![229u8, 229, 229],
    ]
}

/// The bright ANSI colours of xterm.
pub open spec fn default_bright_seq() -> Seq<Seq<u8>> {
    seq![
        seq![127u8, 127, 127],
        seq![255u8, 0, 0],
        seq![0u8, 255, 0],
        seq![255u8, 255, 0],
        seq![92u8, 92, 255],
        seq![255u8, 0, 255],
        seq![0u8, 255, 255],
        seq![255u8, 255, 255],
    ]
}

impl AnsiColors {
    /// The normal ANSI colours of xterm.
    pub fn default_normal() -> (r: AnsiColors)
        ensures
            ansi_seq(r) == default_normal_seq(),
    {
        let r = AnsiColors {
            black: [0, 0, 0],
            red: [205, 0, 0],
            green: [0, 205, 0],
            yellow: [205, 205, 0],
            blue: [0, 0, 238],
            magenta: [205, 0, 205],
            cyan: [0, 205, 205],
            white: [229, 229, 229],
        };
        assert(r.black@ =~= seq![0u8, 0, 0]);
        assert(r.red@ =~= seq![205u8, 0, 0]);
        assert(r.green@ =~= seq![0u8, 205, 0]);
        assert(r.yellow@ =~= seq![205u8, 205, 0]);
        assert(r.blue@ =~= seq![0u8, 0, 238]);
        assert(r.magenta@ =~= seq![205u8, 0, 205]);
        assert(r.cyan@ =~= seq![0u8, 205, 205]);
        assert(r.white@ =~= seq![229u8, 229, 229]);
        assert(ansi_seq(r) =~= default_normal_seq());
        r
    }

    /// The bright ANSI colours of xterm.
    pub fn default_bright() -> (r: AnsiColors)
        ensures
            ansi_seq(r) == default_bright_seq(),
    {
        let r = AnsiColors {
            black: [127, 127, 127],
            red: [255, 0, 0],
            green: [0, 255, 0],
            yellow: [255, 255, 0],
            blue: [92, 92, 255],
            magenta: [255, 0, 255],
            cyan: [0, 255, 255],
            white: [255, 255, 255],
        };
        assert(r.black@ =~= seq![127u8, 127, 127]);
        assert(r.red@ =~= seq![255u8, 0, 0]);
        assert(r.green@ =~= seq![0u8, 255, 0]);
        assert(r.yellow@ =~= seq![255u8, 255, 0]);
        assert(r.blue@ =~= seq![92u8, 92, 255]);
        assert(r.magenta@ =~= seq![255u8, 0, 255]);
        assert(r.cyan@ =~= seq![0u8, 255, 255]);
        assert(r.white@ =~= seq![255u8, 255, 255]);
        assert(ansi_seq(r) =~= default_bright_seq());
        r
    }
}

impl Default for AnsiColors {
    fn default() -> (r: AnsiColors)
        ensures
            ansi_seq(r) == default_normal_seq(),
    {
        AnsiColors::default_normal()
    }
}

impl Default for ColorsConfig {
    fn default() -> (r: ColorsConfig)
        ensures
            r.cursor.foreground@ == seq![0u8, 0, 0],
            r.cursor.background@ == seq![255u8, 255, 255],
            r.ime.foreground@ == seq![255u8, 255, 255],
            r.ime.background@ == seq![0u8, 0, 0],
            r.primary.foreground@ == seq![255u8, 255, 255],
            r.primary.background@ == seq![0u8, 0, 0],
            ansi_seq(r.normal) == default_normal_seq(),
            ansi_seq(r.bright) == default_bright_seq(),
    {
        ColorsConfig {
            cursor: ColorPair::default_cursor(),
            ime: ColorPair::default_ime(),
            primary: ColorPair::default_primary(),
            normal: AnsiColors::default_normal(),
            bright: AnsiColors::default_bright(),
        }
    }
}

impl ColorsConfig {
    /// The cursor colours: foreground, then background.
    pub fn to_cursor_colors(&self) -> (r: [[u8; 3]; 2])
        ensures
            r@ == seq![self.cursor.foreground, self.cursor.background],
    {
        let r = [self.cursor.foreground, self.cursor.background];
        assert(r@ =~= seq![self.cursor.foreground, self.cursor.background]);
        r
    }

    /// The input method preview colours: foreground, then background.
    pub fn to_ime_colors(&self) -> (r: [[u8; 3]; 2])
        ensures
            r@ == seq![self.ime.foreground, self.ime.background],
    {
        let r = [self.ime.foreground, self.ime.background];
        assert(r@ =~= seq![self.ime.foreground, self.ime.background]);
        r
    }

    /// The palette of the named colours, in the order of their palette positions.
    pub fn to_palette(&self) -> (r: [[u8; 3]; 18])
        ensures
            r@.len() == 18,
            forall|i: int| 0 <= i < 18 ==> (#[trigger] r@[i])@ == palette_of(*self)[i],
    {
        let r = [
            self.normal.black,
            self.normal.red,
            self.normal.green,
            self.normal.yellow,
            self.normal.blue,
            self.normal.magenta,
            self.normal.cyan,
            self.normal.white,
            self.bright.black,
            self.bright.red,
            self.bright.green,
            self.bright.yellow,
            self.bright.blue,
            self.bright.magenta,
            self.bright.cyan,
            self.bright.white,
            self.primary.foreground,
            self.primary.background,
        ];
        assert(palette_of(*self).len() == 18);
        r
    }
}

/// The value of an ASCII hexadecimal digit.
pub open spec fn hex_digit(b: u8) -> Option<nat> {
    if 0x30 <= b <= 0x39 {
        Some((b - 0x30) as nat)
    } else if 0x61 <= b <= 0x66 {
        Some((b - 0x61 + 10) as nat)
    } else if 0x41 <= b <= 0x46 {
        Some((b - 0x41 + 10) as nat)
    } else {
        None
    }
}

/// A two-byte hexadecimal field as `u8::from_str_radix(_, 16)` reads it: two digits,
/// or a plus sign and one digit.
pub open spec fn hex_field(a: u8, b: u8) -> Option<u8> {
    if a == 0x2b {
        match hex_digit(b) {
            Some(y) => Some(y as u8),
            None => None,
        }
    } else {
        match (hex_digit(a), hex_digit(b)) {
            (Some(x), Some(y)) => Some((16 * x + y) as u8),
            _ => None,
        }
    }
}

/// A colour written `#rrggbb`: a hash and three two-byte hexadecimal fields.
pub open spec fn hex_color(s: Seq<u8>) -> Option<(u8, u8, u8)> {
    if s.len() != 7 || s[0] != 0x23 {
        None
    } else {
        match (hex_field(s[1], s[2]), hex_field(s[3], s[4]), hex_field(s[5], s[6])) {
            (Some(r), Some(g), Some(b)) => Some((r, g, b)),
            _ => None,
        }
    }
}

/// Whether reading the colour cuts no character in half: the fields of a seven-byte
/// string after `#` start on character boundaries as far as they are read.
pub open spec fn hex_color_readable(s: &str) -> bool {
    let b = s.spec_bytes();
    (b.len() == 7 && b[0] == 0x23) ==> {
        &&& vstd::utf8::is_char_boundary(b, 3)
        &&& hex_field(b[1], b[2]) is Some ==> vstd::utf8::is_char_boundary(b, 5)
    }
}

/// Whether reading `s` as a `#rrggbb` colour cuts no character in half (see
/// `hex_color_readable`); reading one that does is an error of the caller.
pub fn hex_color_is_readable(s: &str) -> (r: bool)
    ensures
        r == hex_color_readable(s),
{
    let b = s.as_bytes();
    if b.len() != 7 || b[0] != 0x23 {
        return true;
    }
    if !s.is_char_boundary(3) {
        return false;
    }
    match parse_hex_field(b[1], b[2]) {
        Some(_) => s.is_char_boundary(5),
        None => true,
    }
}

/// The value of one hexadecimal digit byte.
fn hex_digit_value(b: u8) -> (r: Option<u8>)
    ensures
        match (r, hex_digit(b)) {
            (Some(x), Some(y)) => x == y,
            (None, None) => true,
            _ => false,
        },
{
    if 0x30 <= b && b <= 0x39 {
        Some(b - 0x30)
    } else if 0x61 <= b && b <= 0x66 {
        Some(b - 0x61 + 10)
    } else if 0x41 <= b && b <= 0x46 {
        Some(b - 0x41 + 10)
    } else {
        None
    }
}

/// A two-byte hexadecimal field.
fn parse_hex_field(a: u8, b: u8) -> (r: Option<u8>)
    ensures
        r == hex_field(a, b),
{
    if a == 0x2b {
        match hex_digit_value(b) {
            Some(y) => Some(y),
            None => None,
        }
    } else {
        match (hex_digit_value(a), hex_digit_value(b)) {
            (Some(x), Some(y)) => Some(16 * x + y),
            _ => None,
        }
    }
}

/// Reads a colour written `#rrggbb`.
pub fn parse_hex_color(s: &str) -> (r: Option<[u8; 3]>)
    requires
        hex_color_readable(s),
    ensures
        match (r, hex_color(s.spec_bytes())) {
            (Some(c), Some((red, green, blue))) => c@ == seq![red, green, blue],
            (None, None) => true,
            _ => false,
        },
{
    let b = s.as_bytes();
    if b.len() != 7 || b[0] != 0x23 {
        return None;
    }
    let red = match parse_hex_field(b[1], b[2]) {
        Some(v) => v,
        None => {
            return None;
        },
    };
    let green = match parse_hex_field(b[3], b[4]) {
        Some(v) => v,
        None => {
            return None;
        },
    };
    let blue = match parse_hex_field(b[5], b[6]) {
        Some(v) => v,
        None => {
            return None;
        },
    };
    let c = [red, green, blue];
    assert(c@ =~= seq![red, green, blue]);
    Some(c)
}

/// How to find the program to run: the shell's path and its arguments.
#[derive(Clone, Debug)]
pub struct ShellConfig {
    pub program: String,
    pub args: Vec<String>,
}

impl ShellConfig {
    /// The default shell: the program that `SHELL` names (`shell_var`), else `sh`,
    /// with no arguments.
    pub fn from_shell_var(shell_var: Option<String>) -> (r: ShellConfig)
        ensures
            r.program@ == (match shell_var {
                Some(s) => s@,
                None => "sh"@,
            }),
            r.args@.len() == 0,
    {
        let program = match shell_var {
            Some(s) => s,
            None => String::from_str("sh"),
        };
        ShellConfig { program, args: Vec::new() }
    }
}

/// A font weight, 100 (thin) to 900 (black).
#[derive(Clone, Copy, Debug, PartialEq, Eq, Structural)]
pub struct FontWeight(pub u16);

impl FontWeight {
    pub const THIN: u16 = 100;
    pub const EXTRA_LIGHT: u16 = 200;
    pub const LIGHT: u16 = 300;
    pub const NORMAL: u16 = 400;
    pub const MEDIUM: u16 = 500;
    pub const SEMIBOLD: u16 = 600;
    pub const BOLD: u16 = 700;
    pub const EXTRA_BOLD: u16 = 800;
    pub const BLACK: u16 = 900;
}

/// A font slant.
#[derive(Clone, Copy, Debug, PartialEq, Eq, Structural)]
pub enum FontSlant {
    Normal,
    Italic,
    Oblique,
}

/// The lower-case form of a string: `str::to_lowercase` of std.
pub uninterp spec fn lowercase_of(s: Seq<char>) -> Seq<char>;

/// The lower-case form of `s`, `str::to_lowercase` of std: the result depends on the
/// characters of `s` alone; the Unicode case mapping it applies is not written out.
#[verifier::external_body]
fn lowercase(s: &str) -> (r: String)
    ensures
        r@ == lowercase_of(s@),
{
    s.to_lowercase()
}

/// The UTF-8 bytes of a string.
pub open spec fn bytes_of(s: Seq<char>) -> Seq<u8> {
    vstd::utf8::encode_utf8(s)
}

/// A byte string without its leading plus sign, if it has one.
pub open spec fn strip_plus(b: Seq<u8>) -> Seq<u8> {
    if b.len() > 0 && b[0] == 0x2b {
        b.drop_first()
    } else {
        b
    }
}

/// Whether every byte is an ASCII digit.
pub open spec fn all_digits(d: Seq<u8>) -> bool {
    forall|i: int| 0 <= i < d.len() ==> is_digit(#[trigger] d[i])
}

/// A decimal number as `u16::from_str` reads it: an optional plus sign, then one or
/// more ASCII digits, the value at most 65535.
pub open spec fn decimal_u16(b: Seq<u8>) -> Option<u16> {
    let d = strip_plus(b);
    if d.len() == 0 || !all_digits(d) || digits_value(d) > 65535 {
        None
    } else {
        Some(digits_value(d) as u16)
    }
}

/// The weight that a lower-case name (as UTF-8 bytes) or number gives: the CSS names
/// (`normal` and `regular` both 400), else a number, else 400.
pub open spec fn weight_of(b: Seq<u8>) -> u16 {
    if b == seq![0x74u8, 0x68, 0x69, 0x6e] {
        100
    } else if b == seq![0x65u8, 0x78, 0x74, 0x72, 0x61, 0x6c, 0x69, 0x67, 0x68, 0x74] {
        200
    } else if b == seq![0x6cu8, 0x69, 0x67, 0x68, 0x74] {
        300
    } else if b == seq![0x6eu8, 0x6f, 0x72, 0x6d, 0x61, 0x6c] || b == seq![0x72u8, 0x65, 0x67, 0x75, 0x6c, 0x61, 0x72] {
        400
    } else if b == seq![0x6du8, 0x65, 0x64, 0x69, 0x75, 0x6d] {
        500
    } else if b == seq![0x73u8, 0x65, 0x6d, 0x69, 0x62, 0x6f, 0x6c, 0x64] {
        600
    } else if b == seq![0x62u8, 0x6f, 0x6c, 0x64] {
        700
    } else if b == seq![0x65u8, 0x78, 0x74, 0x72, 0x61, 0x62, 0x6f, 0x6c, 0x64] {
        800
    } else if b == seq![0x62u8, 0x6c, 0x61, 0x63, 0x6b] {
        900
    } else {
        match decimal_u16(b) {
            Some(n) => n,
            None => 400,
        }
    }
}

/// The slant that a lower-case name (as UTF-8 bytes) gives: `italic`, `oblique`, else normal.
pub open spec fn slant_of(b: Seq<u8>) -> FontSlant {
    if b == seq![0x69u8, 0x74, 0x61, 0x6c, 0x69, 0x63] {
        FontSlant::Italic
    } else if b == seq![0x6fu8, 0x62, 0x6c, 0x69, 0x71, 0x75, 0x65] {
        FontSlant::Oblique
    } else {
        FontSlant::Normal
    }
}

/// Whether a byte string equals a literal one.
fn bytes_eq(a: &[u8], b: &[u8]) -> (r: bool)
    ensures
        r == (a@ == b@),
{
    if a.len() != b.len() {
        return false;
    }
    let mut i: usize = 0;
    while i < a.len()
        invariant
            a@.len() == b@.len(),
            0 <= i <= a@.len(),
            forall|j: int| 0 <= j < i ==> a@[j] == b@[j],
        decreases a@.len() - i,
    {
        if a[i] != b[i] {
            return false;
        }
        i = i + 1;
    }
    assert(a@ =~= b@);
    true
}

/// Reads a decimal number as `u16::from_str` does.
fn parse_u16(b: &[u8]) -> (r: Option<u16>)
    ensures
        r == decimal_u16(b@),
{
    let start: usize = if b.len() > 0 && b[0] == 0x2b {
        1
    } else {
        0
    };
    let ghost d = strip_plus(b@);
    assert(d =~= b@.subrange(start as int, b@.len() as int));
    if start == b.len() {
        return None;
    }
    let mut value: u32 = 0;
    let mut i: usize = start;
    while i < b.len()
        invariant
            start <= i <= b@.len(),
            d == strip_plus(b@),
            d =~= b@.subrange(start as int, b@.len() as int),
            forall|j: int| start <= j < i ==> is_digit(#[trigger] b@[j]),
            value == digits_value(b@.subrange(start as int, i as int)),
            value <= 65535,
        decreases b@.len() - i,
    {
        let c = b[i];
        if c < 0x30 || c > 0x39 {
            proof {
                assert(!is_digit(d[i - start]));
                assert(!all_digits(d));
            }
            return None;
        }
        let next = value * 10 + (c - 0x30) as u32;
        assert(b@.subrange(start as int, i + 1).drop_last() =~= b@.subrange(start as int, i as int));
        if next > 65535 {
            proof {
                assert(b@.subrange(start as int, i + 1) =~= d.subrange(0, (i + 1 - start) as int));
                assert(digits_value(b@.subrange(start as int, i + 1)) == value * 10 + (c - 0x30) as nat);
                if all_digits(d) {
                    lemma_digits_value_prefix(d, (i + 1 - start) as int);
                }
            }
            return None;
        }
        value = next;
        i = i + 1;
    }
    assert(b@.subrange(start as int, b@.len() as int) =~= d);
    Some(value as u16)
}

/// A number's digits are worth at least as much as any prefix of them.
proof fn lemma_digits_value_prefix(d: Seq<u8>, k: int)
    requires
        0 <= k <= d.len(),
        forall|i: int| 0 <= i < d.len() ==> is_digit(#[trigger] d[i]),
    ensures
        digits_value(d.subrange(0, k)) <= digits_value(d),
    decreases d.len(),
{
    if k < d.len() {
        let e = d.drop_last();
        assert forall|i: int| 0 <= i < e.len() implies is_digit(#[trigger] e[i]) by {
            assert(e[i] == d[i]);
        }
        lemma_digits_value_prefix(e, k);
        assert(e.subrange(0, k) =~= d.subrange(0, k));
    } else {
        assert(d.subrange(0, k) =~= d);
    }
}

/// The font weight that a configured name or number gives (case ignored).
pub fn parse_weight(s: &str) -> (r: FontWeight)
    ensures
        r.0 == weight_of(bytes_of(lowercase_of(s@))),
{
    let lower = lowercase(s);
    weight_of_lowered(lower.as_str())
}

/// The font weight that an already lower-cased name or number gives.
pub fn weight_of_lowered(lower: &str) -> (r: FontWeight)
    ensures
        r.0 == weight_of(bytes_of(lower@)),
{
    let b = lower.as_bytes();
    let w: u16 = if bytes_eq(b, &[0x74u8, 0x68, 0x69, 0x6e]) {
        FontWeight::THIN
    } else if bytes_eq(b, &[0x65u8, 0x78, 0x74, 0x72, 0x61, 0x6c, 0x69, 0x67, 0x68, 0x74]) {
        FontWeight::EXTRA_LIGHT
    } else if bytes_eq(b, &[0x6cu8, 0x69, 0x67, 0x68, 0x74]) {
        FontWeight::LIGHT
    } else if bytes_eq(b, &[0x6eu8, 0x6f, 0x72, 0x6d, 0x61, 0x6c]) || bytes_eq(
        b,
        &[0x72u8, 0x65, 0x67, 0x75, 0x6c, 0x61, 0x72],
    ) {
        FontWeight::NORMAL
    } else if bytes_eq(b, &[0x6du8, 0x65, 0x64, 0x69, 0x75, 0x6d]) {
        FontWeight::MEDIUM
    } else if bytes_eq(b, &[0x73u8, 0x65, 0x6d, 0x69, 0x62, 0x6f, 0x6c, 0x64]) {
        FontWeight::SEMIBOLD
    } else if bytes_eq(b, &[0x62u8, 0x6f, 0x6c, 0x64]) {
        FontWeight::BOLD
    } else if bytes_eq(b, &[0x65u8, 0x78, 0x74, 0x72, 0x61, 0x62, 0x6f, 0x6c, 0x64]) {
        FontWeight::EXTRA_BOLD
    } else if bytes_eq(b, &[0x62u8, 0x6c, 0x61, 0x63, 0x6b]) {
        FontWeight::BLACK
    } else {
        match parse_u16(b) {
            Some(n) => n,
            None => FontWeight::NORMAL,
        }
    };
    FontWeight(w)
}

/// The font slant that a configured name gives (case ignored).
pub fn parse_style(s: &str) -> (r: FontSlant)
    ensures
        r == slant_of(bytes_of(lowercase_of(s@))),
{
    let lower = lowercase(s);
    slant_of_lowered(lower.as_str())
}

/// The font slant that an already lower-cased name gives.
pub fn slant_of_lowered(lower: &str) -> (r: FontSlant)
    ensures
        r == slant_of(bytes_of(lower@)),
{
    let b = lower.as_bytes();
    if bytes_eq(b, &[0x69u8, 0x74, 0x61, 0x6c, 0x69, 0x63]) {
        FontSlant::Italic
    } else if bytes_eq(b, &[0x6fu8, 0x62, 0x6c, 0x69, 0x71, 0x75, 0x65]) {
        FontSlant::Oblique
    } else {
        FontSlant::Normal
    }
}

/// The family, weight and style configured for one variant of the font; each left
/// out falls back to the given default.
#[derive(Clone, Debug)]
pub struct FontStyleConfig {
    pub family: Option<String>,
    pub weight: Option<String>,
    pub style: Option<String>,
}

impl FontStyleConfig {
    /// The family, weight and slant of this variant, the defaults filling in what is
    /// not configured.
    pub fn resolve<'a>(&'a self, default_family: &'a str, default_weight: FontWeight, default_style: FontSlant) -> (r: (
        &'a str,
        FontWeight,
        FontSlant,
    ))
        ensures
            r.0@ == (match &self.family {
                Some(f) => f@,
                None => default_family@,
            }),
            r.1 == (match &self.weight {
                Some(w) => FontWeight(weight_of(bytes_of(lowercase_of(w@)))),
                None => default_weight,
            }),
            r.2 == (match &self.style {
                Some(s) => slant_of(bytes_of(lowercase_of(s@))),
                None => default_style,
            }),
    {
        let family = match &self.family {
            Some(f) => f.as_str(),
            None => default_family,
        };
        let weight = match &self.weight {
            Some(w) => parse_weight(w.as_str()),
            None => default_weight,
        };
        let style = match &self.style {
            Some(s) => parse_style(s.as_str()),
            None => default_style,
        };
        (family, weight, style)
    }
}


/// The family, weight and slant of a font variant: its configuration resolved against
/// the defaults, or the defaults when the variant is not configured.
pub fn resolve_variant<'a>(
    variant: &'a Option<FontStyleConfig>,
    default_family: &'a str,
    default_weight: FontWeight,
    default_style: FontSlant,
) -> (r: (&'a str, FontWeight, FontSlant))
    ensures
        match variant {
            Some(c) => {
                &&& r.0@ == (match &c.family {
                    Some(f) => f@,
                    None => default_family@,
                })
                &&& r.1 == (match &c.weight {
                    Some(w) => FontWeight(weight_of(bytes_of(lowercase_of(w@)))),
                    None => default_weight,
                })
                &&& r.2 == (match &c.style {
                    Some(s) => slant_of(bytes_of(lowercase_of(s@))),
                    None => default_style,
                })
            },
            None => r.0@ == default_family@ && r.1 == default_weight && r.2 == default_style,
        },
{
    match variant {
        Some(c) => c.resolve(default_family, default_weight, default_style),
        None => (default_family, default_weight, default_style),
    }
}

/// Whether a font face found for a query is the variant asked for: its weight within
/// 100 of the weight asked for, and the same slant.
pub fn face_matches(face_weight: FontWeight, face_style: FontSlant, weight: FontWeight, style: FontSlant) -> (r: bool)
    ensures
        r == (-100 <= face_weight.0 - weight.0 <= 100 && face_style == style),
{
    let diff = if face_weight.0 < weight.0 {
        weight.0 - face_weight.0
    } else {
        face_weight.0 - weight.0
    };
    diff <= 100 && face_style == style
}

/// The lower-case hexadecimal digit of a value below 16.
pub open spec fn hex_char(v: nat) -> u8 {
    if v < 10 {
        (0x30 + v) as u8
    } else {
        (0x61 + v - 10) as u8
    }
}

/// A colour written `#rrggbb` in lower-case hexadecimal.
pub open spec fn hex_text(r: u8, g: u8, b: u8) -> Seq<u8> {
    seq![
        0x23u8,
        hex_char((r / 16) as nat),
        hex_char((r % 16) as nat),
        hex_char((g / 16) as nat),
        hex_char((g % 16) as nat),
        hex_char((b / 16) as nat),
        hex_char((b % 16) as nat),
    ]
}

proof fn lemma_hex_field(v: u8)
    ensures
        hex_field(hex_char((v / 16) as nat), hex_char((v % 16) as nat)) == Some(v),
{
    assert(hex_digit(hex_char((v / 16) as nat)) == Some((v / 16) as nat));
    assert(hex_digit(hex_char((v % 16) as nat)) == Some((v % 16) as nat));
    assert(16 * (v / 16) + v % 16 == v);
}

/// Reading a colour written `#rrggbb` gives back its three components.
pub proof fn law_hex_color_roundtrip(r: u8, g: u8, b: u8)
    ensures
        hex_color(hex_text(r, g, b)) == Some((r, g, b)),
{
    lemma_hex_field(r);
    lemma_hex_field(g);
    lemma_hex_field(b);
}

/// The default ANSI colours of the scheme are the built-in colours of the named
/// colours at the same palette positions.
pub proof fn law_default_palette_matches_builtin(i: int)
    requires
        0 <= i < 8,
    ensures
        default_normal_seq()[i] == crate::cell::builtin_rgb(crate::cell::named_of(i)),
        default_bright_seq()[i] == crate::cell::builtin_rgb(crate::cell::named_of(i + 8)),
{
}

} // verus!

verus! {

/// The CSS weight names give their CSS numbers: thin 100, extralight 200, light 300,
/// normal and regular 400, medium 500, semibold 600, bold 700, extrabold 800, black 900;
/// a number in decimal gives itself, and an unknown name gives 400.
pub proof fn law_weight_names(n: u16)
    ensures
        weight_of(seq![0x74u8, 0x68, 0x69, 0x6e]) == 100,
        weight_of(seq![0x65u8, 0x78, 0x74, 0x72, 0x61, 0x6c, 0x69, 0x67, 0x68, 0x74]) == 200,
        weight_of(seq![0x6cu8, 0x69, 0x67, 0x68, 0x74]) == 300,
        weight_of(seq![0x6eu8, 0x6f, 0x72, 0x6d, 0x61, 0x6c]) == 400,
        weight_of(seq![0x72u8, 0x65, 0x67, 0x75, 0x6c, 0x61, 0x72]) == 400,
        weight_of(seq![0x6du8, 0x65, 0x64, 0x69, 0x75, 0x6d]) == 500,
        weight_of(seq![0x73u8, 0x65, 0x6d, 0x69, 0x62, 0x6f, 0x6c, 0x64]) == 600,
        weight_of(seq![0x62u8, 0x6f, 0x6c, 0x64]) == 700,
        weight_of(seq![0x65u8, 0x78, 0x74, 0x72, 0x61, 0x62, 0x6f, 0x6c, 0x64]) == 800,
        weight_of(seq![0x62u8, 0x6c, 0x61, 0x63, 0x6b]) == 900,
        weight_of(crate::text::decimal(n as nat)) == n,
        weight_of(seq![0x68u8, 0x65, 0x61, 0x76, 0x79]) == 400,
{
    let names = seq![
        seq![0x74u8, 0x68, 0x69, 0x6e],
        seq![0x65u8, 0x78, 0x74, 0x72, 0x61, 0x6c, 0x69, 0x67, 0x68, 0x74],
        seq![0x6cu8, 0x69, 0x67, 0x68, 0x74],
        seq![0x6eu8, 0x6f, 0x72, 0x6d, 0x61, 0x6c],
        seq![0x72u8, 0x65, 0x67, 0x75, 0x6c, 0x61, 0x72],
        seq![0x6du8, 0x65, 0x64, 0x69, 0x75, 0x6d],
        seq![0x73u8, 0x65, 0x6d, 0x69, 0x62, 0x6f, 0x6c, 0x64],
        seq![0x62u8, 0x6f, 0x6c, 0x64],
        seq![0x65u8, 0x78, 0x74, 0x72, 0x61, 0x62, 0x6f, 0x6c, 0x64],
        seq![0x62u8, 0x6c, 0x61, 0x63, 0x6b],
    ];
    // Names of equal length differ in a byte.
    assert(names[1][5] != names[8][5]);
    assert(names[3][0] != names[5][0]);
    assert(names[0][0] != names[7][0]);
    assert(names[2][0] != names[9][0]);
    let heavy = seq![0x68u8, 0x65, 0x61, 0x76, 0x79];
    assert(heavy[0] != names[2][0] && heavy[0] != names[9][0]);
    assert(!is_digit(heavy[0]));
    assert(!all_digits(strip_plus(heavy)));
    let d = crate::text::decimal(n as nat);
    crate::text::law_decimal_roundtrip(n as nat);
    assert(is_digit(d[0]));
    assert forall|i: int| 0 <= i < names.len() implies d != #[trigger] names[i] by {
        assert(!is_digit(names[i][0]));
    }
    assert(strip_plus(d) == d);
}

} // verus!
