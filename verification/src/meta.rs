//! What the second texture coordinate of a vertex carries.

use vstd::prelude::*;
use crate::mesh::four;

verus! {

/// The kinds of value that a channel of the second texture coordinate can
/// carry.
#[derive(Clone, Copy, Debug, PartialEq, Eq, Structural)]
pub enum GlyphMeta {
    /// The number of the glyph within the text.
    Index,
    /// How far along the text the glyph begins.
    Advance,
    /// How far along the text the glyph's centre lies.
    PerGlyphAdvance,
    /// A number that the segment carries.
    MagicNumber,
    /// Where the vertex lies across the width of the text's bounding box.
    RowX,
    /// Where the vertex lies across the height of the text's bounding box.
    ColY,
}

/// The values of one glyph for each kind that is known while the glyph is
/// laid out.
#[derive(Clone, Copy, Debug)]
pub struct MetaValues<S> {
    pub index: S,
    pub advance: S,
    pub per_glyph_advance: S,
    pub magic_number: S,
}

/// What a channel of kind `kind` holds for a quad when the quad is laid
/// out. A background quad carries only index and magic number. The two
/// kinds that depend on the bounding box stay at `zero` until the box is
/// known.
pub open spec fn channel_value<S>(
    kind: GlyphMeta,
    background: bool,
    values: MetaValues<S>,
    zero: S,
) -> S {
    match kind {
        GlyphMeta::Index => values.index,
        GlyphMeta::MagicNumber => values.magic_number,
        GlyphMeta::Advance => if background {
            zero
        } else {
            values.advance
        },
        GlyphMeta::PerGlyphAdvance => if background {
            zero
        } else {
            values.per_glyph_advance
        },
        GlyphMeta::RowX => zero,
        GlyphMeta::ColY => zero,
    }
}

/// Computes [`channel_value`].
pub fn channel<S: Copy>(kind: GlyphMeta, background: bool, values: &MetaValues<S>, zero: S) -> (value:
    S)
    ensures
        value == channel_value(kind, background, *values, zero),
{
    match kind {
        GlyphMeta::Index => values.index,
        GlyphMeta::MagicNumber => values.magic_number,
        GlyphMeta::Advance => if background {
            zero
        } else {
            values.advance
        },
        GlyphMeta::PerGlyphAdvance => if background {
            zero
        } else {
            values.per_glyph_advance
        },
        GlyphMeta::RowX => zero,
        GlyphMeta::ColY => zero,
    }
}

/// The second texture coordinates of a quad's four vertices: the same pair
/// for all four, its first channel of kind `kinds.0`, its second of kind
/// `kinds.1`.
pub fn quad_meta<S: Copy>(
    kinds: (GlyphMeta, GlyphMeta),
    background: bool,
    values: &MetaValues<S>,
    zero: S,
) -> (uv1: [[S; 2]; 4])
    ensures
        uv1@ == four(
            [
                channel_value(kinds.0, background, *values, zero),
                channel_value(kinds.1, background, *values, zero),
            ],
        ),
{
    let pair = [channel(kinds.0, background, values, zero), channel(kinds.1, background, values, zero)];
    let uv1 = [pair, pair, pair, pair];
    assert(uv1@ =~= four(pair));
    uv1
}

} // verus!
