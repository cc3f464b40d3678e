//! Verified core of a Mandelbrot escape-time renderer.
//!
//! The floating-point half of the pipeline (mapping pixels to points of the
//! complex plane and iterating `z * z + c`) lives with the caller; this
//! crate verifies everything around it: deciding a pixel buffer's channel
//! layout from its length, turning escape counts into grayscale
//! intensities, filling one- and three-channel buffers deterministically,
//! and parsing textual coordinate pairs.
pub mod parse;
pub mod raster;
