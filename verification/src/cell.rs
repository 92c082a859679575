use vstd::prelude::*;

verus! {

/// The sixteen ANSI colours and the terminal's default foreground and background.
#[derive(Clone, Copy, Debug, PartialEq, Eq, Structural)]
pub enum NamedColor {
    Black,
    Red,
    Green,
    Yellow,
    Blue,
    Magenta,
    Cyan,
    White,
    BrightBlack,
    BrightRed,
    BrightGreen,
    BrightYellow,
    BrightBlue,
    BrightMagenta,
    BrightCyan,
    BrightWhite,
    Foreground,
    Background,
}

/// The position of each named colour in the palette (0 to 17).
pub open spec fn named_index(c: NamedColor) -> nat {
    match c {
        NamedColor::Black => 0,
        NamedColor::Red => 1,
        NamedColor::Green => 2,
        NamedColor::Yellow => 3,
        NamedColor::Blue => 4,
        NamedColor::Magenta => 5,
        NamedColor::Cyan => 6,
        NamedColor::White => 7,
        NamedColor::BrightBlack => 8,
        NamedColor::BrightRed => 9,
        NamedColor::BrightGreen => 10,
        NamedColor::BrightYellow => 11,
        NamedColor::BrightBlue => 12,
        NamedColor::BrightMagenta => 13,
        NamedColor::BrightCyan => 14,
        NamedColor::BrightWhite => 15,
        NamedColor::Foreground => 16,
        NamedColor::Background => 17,
    }
}

/// The named colour at palette position `i` (0 to 17).
pub open spec fn named_of(i: int) -> NamedColor {
    if i == 0 {
        NamedColor::Black
    } else if i == 1 {
        NamedColor::Red
    } else if i == 2 {
        NamedColor::Green
    } else if i == 3 {
        NamedColor::Yellow
    } else if i == 4 {
        NamedColor::Blue
    } else if i == 5 {
        NamedColor::Magenta
    } else if i == 6 {
        NamedColor::Cyan
    } else if i == 7 {
        NamedColor::White
    } else if i == 8 {
        NamedColor::BrightBlack
    } else if i == 9 {
        NamedColor::BrightRed
    } else if i == 10 {
        NamedColor::BrightGreen
    } else if i == 11 {
        NamedColor::BrightYellow
    } else if i == 12 {
        NamedColor::BrightBlue
    } else if i == 13 {
        NamedColor::BrightMagenta
    } else if i == 14 {
        NamedColor::BrightCyan
    } else if i == 15 {
        NamedColor::BrightWhite
    } else if i == 16 {
        NamedColor::Foreground
    } else {
        NamedColor::Background
    }
}

/// The built-in RGB value of each named colour.
pub open spec fn builtin_rgb(c: NamedColor) -> Seq<u8> {
    match c {
        NamedColor::Black => seq![0u8, 0, 0],
        NamedColor::Red => seq![205u8, 0, 0],
        NamedColor::Green => seq![0u8, 205, 0],
        NamedColor::Yellow => seq![205u8, 205, 0],
        NamedColor::Blue => seq![0u8, 0, 238],
        NamedColor::Magenta => seq![205u8, 0, 205],
        NamedColor::Cyan => seq![0u8, 205, 205],
        NamedColor::White => seq![229u8, 229, 229],
        NamedColor::BrightBlack => seq![127u8, 127, 127],
        NamedColor::BrightRed => seq![255u8, 0, 0],
        NamedColor::BrightGreen => seq![0u8, 255, 0],
        NamedColor::BrightYellow => seq![255u8, 255, 0],
        NamedColor::BrightBlue => seq![92u8, 92, 255],
        NamedColor::BrightMagenta => seq![255u8, 0, 255],
        NamedColor::BrightCyan => seq![0u8, 255, 255],
        NamedColor::BrightWhite => seq![255u8, 255, 255],
        NamedColor::Foreground => seq![229u8, 229, 229],
        NamedColor::Background => seq![0u8, 0, 0],
    }
}

impl NamedColor {
    /// The palette position of this colour.
    pub fn index(self) -> (r: u8)
        ensures
            r == named_index(self),
    {
        match self {
            NamedColor::Black => 0,
            NamedColor::Red => 1,
            NamedColor::Green => 2,
            NamedColor::Yellow => 3,
            NamedColor::Blue => 4,
            NamedColor::Magenta => 5,
            NamedColor::Cyan => 6,
            NamedColor::White => 7,
            NamedColor::BrightBlack => 8,
            NamedColor::BrightRed => 9,
            NamedColor::BrightGreen => 10,
            NamedColor::BrightYellow => 11,
            NamedColor::BrightBlue => 12,
            NamedColor::BrightMagenta => 13,
            NamedColor::BrightCyan => 14,
            NamedColor::BrightWhite => 15,
            NamedColor::Foreground => 16,
            NamedColor::Background => 17,
        }
    }

    /// The named colour at palette position `i`, if there is one.
    pub fn from_index(i: u8) -> (r: Option<NamedColor>)
        ensures
            r == (if i < 18 {
                Some(named_of(i as int))
            } else {
                None
            }),
    {
        match i {
            0 => Some(NamedColor::Black),
            1 => Some(NamedColor::Red),
            2 => Some(NamedColor::Green),
            3 => Some(NamedColor::Yellow),
            4 => Some(NamedColor::Blue),
            5 => Some(NamedColor::Magenta),
            6 => Some(NamedColor::Cyan),
            7 => Some(NamedColor::White),
            8 => Some(NamedColor::BrightBlack),
            9 => Some(NamedColor::BrightRed),
            10 => Some(NamedColor::BrightGreen),
            11 => Some(NamedColor::BrightYellow),
            12 => Some(NamedColor::BrightBlue),
            13 => Some(NamedColor::BrightMagenta),
            14 => Some(NamedColor::BrightCyan),
            15 => Some(NamedColor::BrightWhite),
            16 => Some(NamedColor::Foreground),
            17 => Some(NamedColor::Background),
            _ => None,
        }
    }

    /// The built-in RGB value of this colour.
    pub fn into_color(self) -> (r: [u8; 3])
        ensures
            r@ == builtin_rgb(self),
    {
        let r: [u8; 3] = match self {
            NamedColor::Black => [0, 0, 0],
            NamedColor::Red => [205, 0, 0],
            NamedColor::Green => [0, 205, 0],
            NamedColor::Yellow => [205, 205, 0],
            NamedColor::Blue => [0, 0, 238],
            NamedColor::Magenta => [205, 0, 205],
            NamedColor::Cyan => [0, 205, 205],
            NamedColor::White => [229, 229, 229],
            NamedColor::BrightBlack => [127, 127, 127],
            NamedColor::BrightRed => [255, 0, 0],
            NamedColor::BrightGreen => [0, 255, 0],
            NamedColor::BrightYellow => [255, 255, 0],
            NamedColor::BrightBlue => [92, 92, 255],
            NamedColor::BrightMagenta => [255, 0, 255],
            NamedColor::BrightCyan => [0, 255, 255],
            NamedColor::BrightWhite => [255, 255, 255],
            NamedColor::Foreground => [229, 229, 229],
            NamedColor::Background => [0, 0, 0],
        };
        assert(r@ =~= builtin_rgb(self));
        r
    }
}

/// Palette positions 0 to 17 and named colours correspond one to one.
pub proof fn lemma_named_index_roundtrip(c: NamedColor, i: int)
    ensures
        named_index(c) < 18,
        named_of(named_index(c) as int) == c,
        0 <= i < 18 ==> named_index(named_of(i)) == i,
{
}

/// A set of cell attributes, one bit each.
#[derive(Clone, Copy, Debug, PartialEq, Eq, Structural)]
pub struct CellFlags {
    pub bits: u16,
}

impl CellFlags {
    pub const BOLD: u16 = 0x001;
    pub const DIM: u16 = 0x002;
    pub const ITALIC: u16 = 0x004;
    pub const UNDERLINE: u16 = 0x008;
    pub const BLINK: u16 = 0x010;
    pub const INVERSE: u16 = 0x020;
    pub const HIDDEN: u16 = 0x040;
    pub const STRIKEOUT: u16 = 0x080;
    pub const WIDE_CHAR: u16 = 0x100;
    pub const WIDE_CHAR_SPACER: u16 = 0x200;
    pub const WRAPLINE: u16 = 0x400;
    /// Every bit that names an attribute.
    pub const ALL: u16 = 0x7ff;

    /// The set with no attribute.
    pub fn empty() -> (r: CellFlags)
        ensures
            r.bits == 0,
    {
        CellFlags { bits: 0 }
    }

    /// The set of the attribute bits of `bits`; other bits are dropped.
    pub fn from_bits_truncate(bits: u16) -> (r: CellFlags)
        ensures
            r.bits == bits & Self::ALL,
    {
        CellFlags { bits: bits & Self::ALL }
    }

    /// The raw bits.
    pub fn bits(&self) -> (r: u16)
        ensures
            r == self.bits,
    {
        self.bits
    }

    /// Whether every bit of `mask` is set.
    pub fn contains(&self, mask: u16) -> (r: bool)
        ensures
            r == (self.bits & mask == mask),
    {
        self.bits & mask == mask
    }

    /// Sets the bits of `mask`.
    pub fn insert(&mut self, mask: u16)
        ensures
            final(self).bits == old(self).bits | mask,
    {
        self.bits = self.bits | mask;
    }

    /// Clears the bits of `mask`.
    pub fn remove(&mut self, mask: u16)
        ensures
            final(self).bits == old(self).bits & !mask,
    {
        self.bits = self.bits & !mask;
    }
}

/// A cell colour: a named colour, a 256-colour palette index, or true colour.
#[derive(Clone, Copy, Debug, PartialEq, Eq, Structural)]
pub enum Color {
    Named(NamedColor),
    Indexed(u8),
    Rgb(u8, u8, u8),
}

/// One character cell of the screen.
#[derive(Clone, Copy, Debug, PartialEq, Eq, Structural)]
pub struct Cell {
    pub c: char,
    pub fg: Color,
    pub bg: Color,
    pub flags: CellFlags,
}

/// The blank cell: a space in the default colours with no attribute.
pub open spec fn default_cell() -> Cell {
    Cell {
        c: ' ',
        fg: Color::Named(NamedColor::Foreground),
        bg: Color::Named(NamedColor::Background),
        flags: CellFlags { bits: 0 },
    }
}

impl Cell {
    /// The blank cell.
    pub fn blank() -> (r: Cell)
        ensures
            r == default_cell(),
    {
        Cell {
            c: ' ',
            fg: Color::Named(NamedColor::Foreground),
            bg: Color::Named(NamedColor::Background),
            flags: CellFlags::empty(),
        }
    }
}

impl Default for Cell {
    fn default() -> (r: Cell)
        ensures
            r == default_cell(),
    {
        Cell::blank()
    }
}

/// A position: a line of the buffer or of the screen, and a column.
#[derive(Clone, Copy, Debug, Default, PartialEq, Eq, Structural, PartialOrd, Ord, Hash)]
pub struct Point {
    pub row: usize,
    pub col: usize,
}

/// The order of positions: by line, then by column.
pub open spec fn point_lt(a: Point, b: Point) -> bool {
    a.row < b.row || (a.row == b.row && a.col < b.col)
}

impl Point {
    /// Whether `self` comes before `other`, by line and then by column.
    pub fn before(&self, other: &Point) -> (r: bool)
        ensures
            r == point_lt(*self, *other),
    {
        self.row < other.row || (self.row == other.row && self.col < other.col)
    }
}

} // verus!
