//! The data the atlas is made of: per-glyph placement records, the raw
//! rasterizer output they are computed from, and the error kinds every
//! fallible operation of the crate reports.

use vstd::prelude::*;

verus! {

/// Everything that can go wrong while building or querying an atlas.
#[derive(Clone, Copy, PartialEq, Eq, Structural, Debug)]
pub enum FontError {
    /// The font data could not be opened as a face.
    FontLoadFailure,
    /// The face could not be sized, report its metrics or rasterize a
    /// required character, or handed back malformed bitmap data.
    GlyphRasterizationFailure,
    /// A measurement was asked for a character that has no record in the
    /// table.
    UnknownGlyph,
    /// A height measurement was asked for text with no usable characters.
    EmptyMeasurement,
    /// The packing parameters are unusable (non-positive canvas width or
    /// line height, out-of-range padding, or an oversized character set).
    InvalidConfiguration,
    /// The computed canvas turned out too small for the placements, which
    /// would have meant writing past its edge.
    AtlasOverflow,
}

/// One glyph's placement inside the atlas, plus the metrics needed to lay
/// out text with it. Created once during packing and never changed.
#[derive(Clone, Copy, PartialEq, Eq, Structural, Debug)]
pub struct Character {
    /// The character this record is for.
    pub id: char,
    /// Left edge of the glyph bitmap inside the atlas, in pixels.
    pub x: i32,
    /// Top edge of the glyph bitmap inside the atlas, in pixels.
    pub y: i32,
    /// Width of the glyph bitmap, in pixels.
    pub width: i32,
    /// Height of the glyph bitmap, in pixels.
    pub height: i32,
    /// Horizontal left bearing, in pixels.
    pub x_offset: i32,
    /// Vertical offset from the baseline (top bearing minus bitmap height),
    /// in pixels.
    pub y_offset: i32,
    /// Horizontal pen advance after drawing this glyph, in pixels.
    pub x_advance: i32,
}

/// What the rasterizer hands back for one glyph: the bitmap with its row
/// stride, the bearings, and the 26.6 fixed-point advance. The packer
/// validates every field before trusting any of them.
#[derive(Clone, Debug)]
pub struct RawGlyph {
    /// Number of pixels in one bitmap row.
    pub width: i32,
    /// Number of bitmap rows.
    pub rows: i32,
    /// Bytes from one bitmap row to the next inside `buffer`.
    pub pitch: i32,
    /// Coverage bytes, one per pixel, row by row, `pitch` bytes apart.
    pub buffer: Vec<u8>,
    /// Left bearing in integer pixels.
    pub bearing_left: i32,
    /// Top bearing in integer pixels.
    pub bearing_top: i32,
    /// Pen advance in 26.6 fixed-point units (1/64 pixel).
    pub advance_x: i64,
}

} // verus!
