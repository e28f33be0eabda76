//! Paths and the rendering attributes captured with each of them.

use vstd::prelude::*;

verus! {

/// A colour with 8-bit red, green, blue and alpha channels.
#[derive(Clone, Copy, Debug, PartialEq, Eq, Structural)]
pub struct Color {
    pub r: u8,
    pub g: u8,
    pub b: u8,
    pub a: u8,
}

impl Color {
    pub fn new(r: u8, g: u8, b: u8, a: u8) -> (c: Color)
        ensures
            c == (Color { r, g, b, a }),
    {
        Color { r, g, b, a }
    }

    /// Opaque black, the colour of a path drawn before any colour is set.
    pub fn black() -> (c: Color)
        ensures
            c == (Color { r: 0, g: 0, b: 0, a: 255 }),
    {
        Color { r: 0, g: 0, b: 0, a: 255 }
    }
}

impl Default for Color {
    fn default() -> (c: Color)
        ensures
            c == (Color { r: 0, g: 0, b: 0, a: 255 }),
    {
        Color::black()
    }
}

/// The bit pattern of the `f64` value 1.0: the default stroke width.
pub const DEFAULT_STROKE_WIDTH_BITS: u64 = 0x3ff0_0000_0000_0000;

/// The attributes with which a path is stroked.
///
/// The stroke width is kept as the bit pattern of an `f64` (as given by
/// `f64::to_bits`): the canvas carries it to the output without reading it.
#[derive(Clone, Copy, Debug, PartialEq, Eq, Structural)]
pub struct PathMetadata {
    pub color: Color,
    pub stroke_width: u64,
}

impl PathMetadata {
    pub open spec fn default_spec() -> PathMetadata {
        PathMetadata {
            color: Color { r: 0, g: 0, b: 0, a: 255 },
            stroke_width: DEFAULT_STROKE_WIDTH_BITS,
        }
    }
}

impl Default for PathMetadata {
    fn default() -> (m: PathMetadata)
        ensures
            m == PathMetadata::default_spec(),
    {
        PathMetadata { color: Color::black(), stroke_width: DEFAULT_STROKE_WIDTH_BITS }
    }
}

/// A finished path: its geometry and the attributes it was drawn with.
#[derive(Clone, Debug)]
pub struct Path {
    pub data: kurbo::BezPath,
    pub metadata: PathMetadata,
}

impl Path {
    pub fn new(data: kurbo::BezPath, metadata: PathMetadata) -> (p: Path)
        ensures
            p.data == data,
            p.metadata == metadata,
    {
        Path { data, metadata }
    }

    /// Maps every point of the path through `affine`; the attributes stay.
    pub fn apply_transform(&mut self, affine: kurbo::Affine)
        ensures
            final(self).data == crate::geom::path_transformed(affine, old(self).data),
            final(self).metadata == old(self).metadata,
    {
        crate::geom::transform_path(&mut self.data, affine);
    }
}

} // verus!
