//! The display layer: colors, the pixel canvas, resolutions, and the plain
//! PPM encoding of a finished image.

pub mod canvas;
pub mod color;
pub mod ppm;
pub mod resolution;
