//! Change detection: whether a text needs a new layout, only new texture
//! coordinates, or nothing.

use vstd::prelude::*;

verus! {

/// What has changed since a text was last laid out.
#[derive(Clone, Copy, Debug, PartialEq, Eq, Structural)]
pub struct Changes {
    /// The font system, or an atlas that was drawn elsewhere and has just
    /// been delivered.
    pub renderer: bool,
    /// The text's own content.
    pub text: bool,
    /// The bounds the text wraps in.
    pub bounds: bool,
    /// The styling.
    pub styling: bool,
    /// A text segment that is fetched from elsewhere.
    pub segments: bool,
}

/// Size of an atlas bitmap in pixels.
#[derive(Clone, Copy, Debug, PartialEq, Eq, Structural)]
pub struct Dimension {
    pub width: usize,
    pub height: usize,
}

/// What a pass does with one text.
#[derive(Clone, Copy, Debug, PartialEq, Eq, Structural)]
pub enum Pass {
    /// Nothing: the mesh is up to date.
    Skip,
    /// The glyphs are where they were, but the bitmap has another size:
    /// the texture coordinates are rescaled and nothing is rasterized.
    Rescale,
    /// The text is shaped and its mesh built anew.
    Relayout,
}

impl Changes {
    /// Whether anything has changed.
    pub open spec fn any(self) -> bool {
        self.renderer || self.text || self.bounds || self.styling || self.segments
    }
}

/// The pass that `changes` and the bitmap's size call for: `recorded` is
/// the size at the last layout, `current` the size now.
pub open spec fn pass_for(changes: Changes, recorded: Dimension, current: Dimension) -> Pass {
    if changes.any() {
        Pass::Relayout
    } else if recorded == current {
        Pass::Skip
    } else {
        Pass::Rescale
    }
}

/// Decides what to do with a text in this pass.
pub fn choose_pass(changes: Changes, recorded: Dimension, current: Dimension) -> (pass: Pass)
    ensures
        pass == pass_for(changes, recorded, current),
{
    if changes.renderer || changes.text || changes.bounds || changes.styling || changes.segments {
        Pass::Relayout
    } else if recorded.width == current.width && recorded.height == current.height {
        Pass::Skip
    } else {
        Pass::Rescale
    }
}

/// When nothing but the size of the bitmap has changed, the pass rescales
/// and does not lay out again, so no glyph is rasterized; and it does so
/// only then.
pub proof fn lemma_rescale_only(changes: Changes, recorded: Dimension, current: Dimension)
    ensures
        pass_for(changes, recorded, current) == Pass::Rescale <==> !changes.any() && recorded
            != current,
        pass_for(changes, recorded, current) == Pass::Skip <==> !changes.any() && recorded
            == current,
{
}

} // verus!
