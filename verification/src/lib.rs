//! Glyph atlas packing and text mesh assembly.
//!
//! The crate holds the integer core of a text renderer: a shelf packer that
//! places rasterized glyphs in a shared bitmap and remembers where each one
//! went, and the bookkeeping that turns placed glyphs into quads of a mesh.
//! Shaping, rasterizing and drawing are left to the caller.

pub mod atlas;
pub mod bitmap;
pub mod gate;
pub mod geometry;
pub mod glyph;
pub mod loading;
pub mod mesh;
pub mod meta;
pub mod packer;
pub mod raster;
pub mod resolver;
pub mod style;
mod table;

pub use atlas::TextAtlas;
pub use bitmap::AtlasImage;
pub use geometry::{PixelPoint, PixelRect};
pub use glyph::{AtlasEntry, GlyphEntry};
