//! What identifies a rasterized glyph, and what the atlas remembers of it.

use vstd::prelude::*;
use crate::geometry::PixelRect;

verus! {

/// Identity of one rasterized variant of a glyph. Fill and stroke of the
/// same glyph differ in `stroke`, and so do two strokes of different width.
#[derive(Clone, Copy, Debug, PartialEq, Eq, Hash)]
pub struct GlyphEntry {
    /// The font the glyph comes from.
    pub font: u64,
    /// The glyph's number within the font.
    pub glyph_id: u16,
    /// Bit pattern of the font size.
    pub size: u32,
    /// Numeric font weight.
    pub weight: u16,
    /// Stroke width, absent for a filled glyph.
    pub stroke: Option<u32>,
}

/// The integers under which a glyph is filed.
pub type GlyphKey = (u64, u16, u32, u16, u64);

impl GlyphEntry {
    /// The filing key: the fields in order, the stroke as its width plus
    /// one, or zero where there is none.
    pub open spec fn key_spec(self) -> GlyphKey {
        (
            self.font,
            self.glyph_id,
            self.size,
            self.weight,
            match self.stroke {
                Some(width) => (width + 1) as u64,
                None => 0u64,
            },
        )
    }

    /// Computes [`GlyphEntry::key_spec`].
    pub fn key(&self) -> (key: GlyphKey)
        ensures
            key == self.key_spec(),
    {
        let stroke: u64 = match self.stroke {
            Some(width) => width as u64 + 1,
            None => 0,
        };
        (self.font, self.glyph_id, self.size, self.weight, stroke)
    }
}

/// Two glyph entries share a key only if all their fields agree.
pub proof fn lemma_key_injective(a: GlyphEntry, b: GlyphEntry)
    ensures
        a.key_spec() == b.key_spec() <==> a == b,
{
}

/// What the atlas stores for a glyph: where its pixels lie, and the offset
/// of its ink box from the pen position, kept as the caller gave it.
#[derive(Clone, Copy, Debug, PartialEq)]
pub struct AtlasEntry<B> {
    pub rect: PixelRect,
    pub base: B,
}

} // verus!
