//! Geometric and raster foundation of a ray tracer: square matrices over any
//! scalar, a pixel canvas over any pixel type, eight-bit channel clamping,
//! and byte-exact plain PPM and TGA encodings of a quantised canvas.

pub mod canvas;
pub mod color;
pub mod image;
pub mod matrix;

pub use canvas::Canvas;
pub use color::{clamp_channel, Rgb8};
pub use matrix::{cofactor_negated, Matrix};
