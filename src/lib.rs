//! A vector-drawing canvas: a stack of affine frames, a metadata snapshot taken
//! at each draw, and a layered document that receives the transformed paths.

pub mod geom;
pub mod path;
pub mod document;
pub mod sketch;
