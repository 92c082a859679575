use vstd::prelude::*;

use std::collections::HashMap;

verus! {

/// Where a glyph bitmap goes in the atlas texture.
#[derive(Clone, Copy, Debug, PartialEq, Eq, Structural)]
pub enum AtlasSlot {
    /// The glyph has no pixels and takes no room.
    Empty,
    /// The bitmap's top left corner goes here.
    At(u32, u32),
    /// The atlas has no room left for the bitmap.
    Full,
}

/// Places glyph bitmaps in a square atlas texture, on shelves filled left to right and
/// top to bottom, with a pixel of padding between bitmaps.
#[derive(Clone, Copy, Debug, PartialEq, Eq, Structural)]
pub struct AtlasPacker {
    pub cursor_x: u32,
    pub cursor_y: u32,
    pub row_height: u32,
}

impl AtlasPacker {
    /// The side of the atlas texture, in pixels.
    pub const ATLAS_SIZE: u32 = 2048;

    /// The padding between bitmaps, in pixels.
    pub const GLYPH_PADDING: u32 = 1;

    /// The bounds a packer keeps: its cursor inside the atlas and its shelf no taller
    /// than the atlas.
    pub open spec fn wf(self) -> bool {
        &&& self.cursor_x <= Self::ATLAS_SIZE
        &&& self.cursor_y <= Self::ATLAS_SIZE
        &&& self.row_height <= Self::ATLAS_SIZE
    }

    /// An empty atlas: the cursor one padding in from the top left corner.
    pub open spec fn new_spec() -> AtlasPacker {
        AtlasPacker { cursor_x: 1, cursor_y: 1, row_height: 0 }
    }

    /// An empty atlas: the cursor one padding in from the top left corner.
    pub fn new() -> (r: AtlasPacker)
        ensures
            r.wf(),
            r == Self::new_spec(),
    {
        AtlasPacker { cursor_x: Self::GLYPH_PADDING, cursor_y: Self::GLYPH_PADDING, row_height: 0 }
    }

    /// Placing a `width` by `height` bitmap: none for an empty one; a bitmap that does not
    /// fit on the shelf starts a new shelf at the left edge, below the tallest bitmap of
    /// this one; it goes at the cursor if it fits in the atlas there, and the cursor moves
    /// past it.
    pub open spec fn place_of(self, width: u32, height: u32) -> (AtlasPacker, AtlasSlot) {
        if width == 0 || height == 0 {
            (self, AtlasSlot::Empty)
        } else {
            let wrap = Self::ATLAS_SIZE < self.cursor_x + width + Self::GLYPH_PADDING;
            let x = if wrap {
                0
            } else {
                self.cursor_x as int
            };
            let y = if wrap {
                self.cursor_y + self.row_height + Self::GLYPH_PADDING
            } else {
                self.cursor_y as int
            };
            let h = if wrap {
                0
            } else {
                self.row_height as int
            };
            if Self::ATLAS_SIZE < x + width + Self::GLYPH_PADDING || Self::ATLAS_SIZE < y + height
                + Self::GLYPH_PADDING {
                (self, AtlasSlot::Full)
            } else {
                (
                    AtlasPacker {
                        cursor_x: (x + width + Self::GLYPH_PADDING) as u32,
                        cursor_y: y as u32,
                        row_height: if h < height {
                            height
                        } else {
                            h as u32
                        },
                    },
                    AtlasSlot::At(x as u32, y as u32),
                )
            }
        }
    }

    /// Places a `width` by `height` bitmap: see `place_of`. When the atlas is full the
    /// packer stays as it was.
    pub fn place(&mut self, width: u32, height: u32) -> (r: AtlasSlot)
        requires
            old(self).wf(),
            width < 0x8000_0000,
            height < 0x8000_0000,
        ensures
            final(self).wf(),
            (*final(self), r) == old(self).place_of(width, height),
    {
        if width == 0 || height == 0 {
            return AtlasSlot::Empty;
        }
        let wrap = Self::ATLAS_SIZE < self.cursor_x + width + Self::GLYPH_PADDING;
        let x: u32 = if wrap {
            0
        } else {
            self.cursor_x
        };
        let y: u32 = if wrap {
            self.cursor_y + self.row_height + Self::GLYPH_PADDING
        } else {
            self.cursor_y
        };
        let h: u32 = if wrap {
            0
        } else {
            self.row_height
        };
        if Self::ATLAS_SIZE < x + width + Self::GLYPH_PADDING || Self::ATLAS_SIZE < y + height + Self::GLYPH_PADDING {
            return AtlasSlot::Full;
        }
        self.cursor_x = x + width + Self::GLYPH_PADDING;
        self.cursor_y = y;
        self.row_height = if h < height {
            height
        } else {
            h
        };
        AtlasSlot::At(x, y)
    }
}

/// Where a glyph went: its slot in the atlas, and its bitmap's size and offsets from
/// the pen position.
#[derive(Clone, Copy, Debug, PartialEq, Eq, Structural)]
pub struct GlyphPlacement {
    pub slot: AtlasSlot,
    pub width: u32,
    pub height: u32,
    pub xmin: i32,
    pub ymin: i32,
}

/// The glyphs put in the atlas so far, found again by character, and the packer that
/// places new ones.
pub struct GlyphCache {
    placed: HashMap<u32, GlyphPlacement>,
    packer: AtlasPacker,
}

impl View for GlyphCache {
    type V = (Map<u32, GlyphPlacement>, AtlasPacker);

    closed spec fn view(&self) -> (Map<u32, GlyphPlacement>, AtlasPacker) {
        (self.placed@, self.packer)
    }
}

impl GlyphCache {
    /// Whether the cache keeps its packer within the atlas.
    pub open spec fn wf(&self) -> bool {
        self@.1.wf()
    }

    /// No glyph yet, in an empty atlas.
    pub fn new() -> (r: GlyphCache)
        ensures
            r.wf(),
            r@.0 == Map::<u32, GlyphPlacement>::empty(),
            r@.1 == AtlasPacker::new_spec(),
    {
        GlyphCache { placed: HashMap::new(), packer: AtlasPacker::new() }
    }

    /// The placement of `c`, if it has one.
    pub fn get(&self, c: char) -> (r: Option<GlyphPlacement>)
        ensures
            r == (if self@.0.contains_key(c as u32) {
                Some(self@.0[c as u32])
            } else {
                None
            }),
    {
        broadcast use vstd::std_specs::hash::group_hash_axioms;

        match self.placed.get(&(c as u32)) {
            Some(p) => Some(*p),
            None => None,
        }
    }

    /// Places the `width` by `height` bitmap of `c` (see `AtlasPacker::place_of`) and
    /// keeps its placement, unless the atlas is full: then nothing changes.
    pub fn place(&mut self, c: char, width: u32, height: u32, xmin: i32, ymin: i32) -> (r: GlyphPlacement)
        requires
            old(self).wf(),
            width < 0x8000_0000,
            height < 0x8000_0000,
        ensures
            final(self).wf(),
            r == (GlyphPlacement { slot: old(self)@.1.place_of(width, height).1, width, height, xmin, ymin }),
            r.slot == AtlasSlot::Full ==> final(self)@ == old(self)@,
            r.slot != AtlasSlot::Full ==> final(self)@ == (
                old(self)@.0.insert(c as u32, r),
                old(self)@.1.place_of(width, height).0,
            ),
    {
        broadcast use vstd::std_specs::hash::group_hash_axioms;

        let slot = self.packer.place(width, height);
        let r = GlyphPlacement { slot, width, height, xmin, ymin };
        if slot != AtlasSlot::Full {
            self.placed.insert(c as u32, r);
        }
        r
    }
}

/// A glyph placed in the cache is found again with the same placement, and placing
/// one glyph leaves the others as they were.
pub proof fn law_cache_finds_placed(before: Map<u32, GlyphPlacement>, c: char, d: char, r: GlyphPlacement)
    ensures
        before.insert(c as u32, r).contains_key(c as u32),
        before.insert(c as u32, r)[c as u32] == r,
        c != d ==> before.insert(c as u32, r).contains_key(d as u32) == before.contains_key(d as u32),
        c != d && before.contains_key(d as u32) ==> before.insert(c as u32, r)[d as u32] == before[d as u32],
{
    assert(c != d ==> c as u32 != d as u32);
}

/// Bitmaps placed one after another never overlap: a second bitmap lies to the right
/// of the first on the same shelf, or wholly below it.
pub proof fn law_placements_disjoint(p: AtlasPacker, w1: u32, h1: u32, w2: u32, h2: u32)
    requires
        p.wf(),
        p.place_of(w1, h1).1 is At,
        p.place_of(w1, h1).0.place_of(w2, h2).1 is At,
    ensures
        ({
            let (q, s1) = p.place_of(w1, h1);
            let s2 = q.place_of(w2, h2).1;
            match (s1, s2) {
                (AtlasSlot::At(x1, y1), AtlasSlot::At(x2, y2)) => (y2 == y1 && x2 >= x1 + w1) || y2 >= y1 + h1,
                _ => false,
            }
        }),
{
}

} // verus!
