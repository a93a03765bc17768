//! From the style of a glyph to the quads drawn for it.

use vstd::prelude::*;

verus! {

/// One way of drawing a glyph.
#[derive(Clone, Copy, Debug, PartialEq, Eq, Structural)]
pub enum RenderType {
    /// A flat rectangle behind the glyph.
    Background,
    /// The glyph's filled outline.
    Fill,
    /// The glyph's outline stroked with the given width.
    Stroke(u32),
}

/// Where along the depth axis a quad lies.
#[derive(Clone, Copy, Debug, PartialEq, Eq, Structural)]
pub enum Depth {
    /// One unit behind: backgrounds.
    Behind,
    /// At depth zero.
    Level,
    /// At the configured stroke offset.
    Offset,
    /// At the configured stroke offset, negated.
    NegatedOffset,
}

/// The style set for the whole text, with colours of type `C`.
#[derive(Clone, Copy, Debug)]
pub struct Styling<C> {
    /// Whether glyphs are filled.
    pub fill: bool,
    /// Stroke width, if glyphs are stroked.
    pub stroke: Option<u32>,
    /// Fill colour.
    pub color: C,
    /// Stroke colour.
    pub stroke_color: C,
    /// Font weight.
    pub weight: u16,
    /// Whether the configured stroke offset is greater than zero.
    pub offset_positive: bool,
}

/// What one segment of the text sets for itself; what it leaves unset
/// falls back to the [`Styling`].
#[derive(Clone, Copy, Debug)]
pub struct SegmentStyle<C> {
    pub fill: Option<bool>,
    pub stroke: Option<u32>,
    pub fill_color: Option<C>,
    pub stroke_color: Option<C>,
    pub background_color: Option<C>,
    pub weight: Option<u16>,
}

/// One quad to draw for a glyph.
#[derive(Clone, Copy, Debug)]
pub struct Variant<C> {
    pub kind: RenderType,
    pub color: C,
    pub depth: Depth,
}

/// `value` where it is set, `fallback` where it is not.
pub open spec fn or_default<T>(value: Option<T>, fallback: T) -> T {
    match value {
        Some(v) => v,
        None => fallback,
    }
}

/// `first` where it is set, `second` where it is not.
pub open spec fn or_else<T>(first: Option<T>, second: Option<T>) -> Option<T> {
    match first {
        Some(_) => first,
        None => second,
    }
}

/// The fill and stroke quads of a glyph, in drawing order. With both, the
/// one that lies at depth zero comes last: the stroke if the stroke offset
/// is positive, the fill if it is not.
pub open spec fn ink_variants<C>(segment: SegmentStyle<C>, styling: Styling<C>) -> Seq<
    Variant<C>,
> {
    let fill = Variant {
        kind: RenderType::Fill,
        color: or_default(segment.fill_color, styling.color),
        depth: Depth::Level,
    };
    let fills = or_default(segment.fill, styling.fill);
    match or_else(segment.stroke, styling.stroke) {
        Some(width) => {
            let stroke = Variant {
                kind: RenderType::Stroke(width),
                color: or_default(segment.stroke_color, styling.stroke_color),
                depth: Depth::Level,
            };
            if !fills {
                seq![stroke]
            } else if styling.offset_positive {
                seq![Variant { depth: Depth::Offset, ..fill }, stroke]
            } else {
                seq![Variant { depth: Depth::NegatedOffset, ..stroke }, fill]
            }
        },
        None => if fills {
            seq![fill]
        } else {
            Seq::empty()
        },
    }
}

/// All quads of a glyph, in drawing order: the background, if the segment
/// has one, then fill and stroke.
pub open spec fn variants_of<C>(segment: SegmentStyle<C>, styling: Styling<C>) -> Seq<
    Variant<C>,
> {
    match segment.background_color {
        Some(color) => seq![Variant { kind: RenderType::Background, color, depth: Depth::Behind }]
            + ink_variants(segment, styling),
        None => ink_variants(segment, styling),
    }
}

/// The quads to draw for a glyph of a segment styled `segment` in a text
/// styled `styling`.
pub fn render_variants<C: Copy>(segment: &SegmentStyle<C>, styling: &Styling<C>) -> (renders:
    Vec<Variant<C>>)
    ensures
        renders@ == variants_of(*segment, *styling),
{
    let mut renders: Vec<Variant<C>> = Vec::new();
    match segment.background_color {
        Some(color) => {
            renders.push(Variant { kind: RenderType::Background, color, depth: Depth::Behind });
        },
        None => {},
    }
    let ghost background = renders@;
    let fills: bool = match segment.fill {
        Some(fills) => fills,
        None => styling.fill,
    };
    let stroke: Option<u32> = match segment.stroke {
        Some(width) => Some(width),
        None => styling.stroke,
    };
    let fill_color: C = match segment.fill_color {
        Some(color) => color,
        None => styling.color,
    };
    let stroke_color: C = match segment.stroke_color {
        Some(color) => color,
        None => styling.stroke_color,
    };
    match stroke {
        Some(width) => {
            if !fills {
                renders.push(
                    Variant {
                        kind: RenderType::Stroke(width),
                        color: stroke_color,
                        depth: Depth::Level,
                    },
                );
            } else if styling.offset_positive {
                renders.push(
                    Variant { kind: RenderType::Fill, color: fill_color, depth: Depth::Offset },
                );
                renders.push(
                    Variant {
                        kind: RenderType::Stroke(width),
                        color: stroke_color,
                        depth: Depth::Level,
                    },
                );
            } else {
                renders.push(
                    Variant {
                        kind: RenderType::Stroke(width),
                        color: stroke_color,
                        depth: Depth::NegatedOffset,
                    },
                );
                renders.push(
                    Variant { kind: RenderType::Fill, color: fill_color, depth: Depth::Level },
                );
            }
        },
        None => {
            if fills {
                renders.push(
                    Variant { kind: RenderType::Fill, color: fill_color, depth: Depth::Level },
                );
            }
        },
    }
    assert(renders@ =~= background + ink_variants(*segment, *styling));
    assert(renders@ =~= variants_of(*segment, *styling));
    renders
}

/// The weight under which a glyph of the segment is rasterized and filed.
pub fn resolved_weight<C>(segment: &SegmentStyle<C>, styling: &Styling<C>) -> (weight: u16)
    ensures
        weight == or_default(segment.weight, styling.weight),
{
    match segment.weight {
        Some(weight) => weight,
        None => styling.weight,
    }
}

} // verus!
