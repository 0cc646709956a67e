//! Pixel-buffer transformations: aspect-preserving resize, named colour
//! filters, horizontal stitching and thumbnail strips.
//!
//! Every buffer is a [`buffer::PixelBuffer`]: width, height and interleaved
//! RGBA bytes, row-major with the top row first. Each operation states what
//! it returns over [`buffer::ImageView`], the mathematical model of a buffer.

pub mod buffer;
pub mod cargo;
pub mod color;
pub mod compose;
pub mod error;
pub mod filters;
pub mod flip;
pub mod resize;
pub mod strip;
pub mod strip_laws;
