//! Finding the pixels of a glyph: in the atlas if they are cached, and if
//! not, under which key they are to be rasterized and filed.

use vstd::prelude::*;
use crate::atlas::TextAtlas;
use crate::glyph::{AtlasEntry, GlyphEntry};
use crate::style::RenderType;

verus! {

/// What shaping tells of a glyph that matters for its pixels.
#[derive(Clone, Copy, Debug, PartialEq, Eq, Structural)]
pub struct ShapedGlyph {
    /// The font the glyph comes from.
    pub font: u64,
    /// The glyph's number within the font.
    pub glyph_id: u16,
    /// Bit pattern of the font size.
    pub size: u32,
}

/// Where the pixels of a quad come from.
#[derive(Clone, Copy, Debug, PartialEq)]
pub enum Resolution<B> {
    /// From the reserved opaque square: the quad is a background.
    Swatch,
    /// From the atlas, where the glyph is cached.
    Cached(AtlasEntry<B>),
    /// From nowhere yet: the glyph has to be rasterized and cached under
    /// this key.
    Rasterize(GlyphEntry),
}

/// The key of a way of drawing a glyph at a weight; a background has none.
/// Fill and stroke of one glyph have different keys.
pub open spec fn key_of(glyph: ShapedGlyph, weight: u16, kind: RenderType) -> Option<GlyphEntry> {
    match kind {
        RenderType::Background => None,
        RenderType::Fill => Some(
            GlyphEntry {
                font: glyph.font,
                glyph_id: glyph.glyph_id,
                size: glyph.size,
                weight,
                stroke: None,
            },
        ),
        RenderType::Stroke(width) => Some(
            GlyphEntry {
                font: glyph.font,
                glyph_id: glyph.glyph_id,
                size: glyph.size,
                weight,
                stroke: Some(width),
            },
        ),
    }
}

/// Computes [`key_of`].
pub fn glyph_key(glyph: &ShapedGlyph, weight: u16, kind: RenderType) -> (key: Option<GlyphEntry>)
    ensures
        key == key_of(*glyph, weight, kind),
{
    match kind {
        RenderType::Background => None,
        RenderType::Fill => Some(
            GlyphEntry {
                font: glyph.font,
                glyph_id: glyph.glyph_id,
                size: glyph.size,
                weight,
                stroke: None,
            },
        ),
        RenderType::Stroke(width) => Some(
            GlyphEntry {
                font: glyph.font,
                glyph_id: glyph.glyph_id,
                size: glyph.size,
                weight,
                stroke: Some(width),
            },
        ),
    }
}

/// Resolves one way of drawing a glyph against the atlas: the cached entry
/// if there is one, the key to rasterize under if there is none.
pub fn resolve<H, B: Copy>(
    atlas: &TextAtlas<H, B>,
    glyph: &ShapedGlyph,
    weight: u16,
    kind: RenderType,
) -> (found: Resolution<B>)
    ensures
        found == (match key_of(*glyph, weight, kind) {
            None => Resolution::Swatch,
            Some(key) => if atlas.entries().contains_key(key) {
                Resolution::Cached(atlas.entries()[key])
            } else {
                Resolution::Rasterize(key)
            },
        }),
{
    match glyph_key(glyph, weight, kind) {
        None => Resolution::Swatch,
        Some(key) => match atlas.lookup(&key) {
            Some(entry) => Resolution::Cached(entry),
            None => Resolution::Rasterize(key),
        },
    }
}

} // verus!
