//! Failure cases of the GIF pipeline.

use vstd::prelude::*;

verus! {

/// One error kind per failing subsystem. Each variant carries the
/// human-readable cause string reported by that subsystem.
#[derive(Debug)]
pub enum GifError {
    /// The input byte stream could not be parsed as a GIF.
    DecodeError(String),
    /// The GIF writer rejected a header, a frame or a setting.
    EncodeError(String),
    /// An external rendering surface could not be driven; surfaced
    /// pass-through for callers that rasterize overlays elsewhere.
    CanvasError(String),
    /// An operation was attempted on an empty or unpopulated state, or a
    /// decode yielded zero usable frames.
    InvalidState(String),
}

} // verus!
