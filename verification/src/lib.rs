//! Animated-GIF caption pipeline: decode a GIF into fully composited RGBA
//! snapshots, stamp an RGBA overlay onto every snapshot, and re-encode the
//! result as an infinitely looping GIF that keeps each frame's delay.

use vstd::prelude::*;

pub mod canvas;
pub mod decode;
pub mod encode;
pub mod error;
pub mod frame;
pub mod laws;
pub mod processor;

pub use error::GifError;
pub use processor::{GifProcessor, DEFAULT_FRAME_DELAY};

verus! {

/// Width and height of one GIF canvas, in pixels.
#[derive(Debug, Clone, Copy)]
pub struct Dimensions {
    /// Width of the GIF frame in pixels
    pub width: usize,
    /// Height of the GIF frame in pixels
    pub height: usize,
}

impl Dimensions {
    /// Creates a new Dimensions struct with the specified width and height
    pub fn new(width: usize, height: usize) -> (d: Dimensions)
        ensures
            d.width == width,
            d.height == height,
    {
        Dimensions { width, height }
    }
}

} // verus!
