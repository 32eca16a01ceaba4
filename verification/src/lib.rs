//! Trims fully transparent borders from RGBA images and keeps the result
//! inside a fixed aspect-ratio envelope.
//!
//! The crate works on decoded pixel buffers only. Decoding, encoding, file
//! discovery and scheduling belong to the caller.

pub mod aspect;
pub mod batch;
pub mod bounds;
pub mod geometry;
pub mod pipeline;
pub mod raster;
