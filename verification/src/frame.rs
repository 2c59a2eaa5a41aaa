//! Delta frames: the sparse, region-limited frames a GIF stream stores.

use vstd::prelude::*;

verus! {

/// Disposal code `0` of the graphic control extension: unspecified; treated
/// like `keep`.
pub const DISPOSE_ANY: u8 = 0;

/// Disposal code `1`: leave the canvas as it is.
pub const DISPOSE_KEEP: u8 = 1;

/// Disposal code `2`: once this frame has been shown, clear the whole canvas
/// to transparent black for the next frame.
pub const DISPOSE_BACKGROUND: u8 = 2;

/// Disposal code `3`: once this frame has been shown, restore the canvas to
/// the state it had before this frame was drawn.
pub const DISPOSE_PREVIOUS: u8 = 3;

/// One frame as parsed from the input stream: a sub-rectangle within the full
/// canvas, a disposal code, a delay in centiseconds, and RGBA pixel data
/// limited to the sub-rectangle (row-major, 4 bytes per pixel).
pub struct DeltaFrame {
    /// Offset of the sub-rectangle from the left border of the canvas.
    pub left: u16,
    /// Offset of the sub-rectangle from the top border of the canvas.
    pub top: u16,
    /// Width of the sub-rectangle.
    pub width: u16,
    /// Height of the sub-rectangle.
    pub height: u16,
    /// Disposal code, one of the `DISPOSE_*` values.
    pub dispose: u8,
    /// Frame delay in centiseconds.
    pub delay: u16,
    /// RGBA pixels of the sub-rectangle, `width * height * 4` bytes.
    pub pixels: Vec<u8>,
}

/// Mathematical image of a delta frame.
pub ghost struct DeltaView {
    /// Offset of the sub-rectangle from the left border of the canvas.
    pub left: nat,
    /// Offset of the sub-rectangle from the top border of the canvas.
    pub top: nat,
    /// Width of the sub-rectangle.
    pub width: nat,
    /// Height of the sub-rectangle.
    pub height: nat,
    /// Disposal code, one of the `DISPOSE_*` values.
    pub dispose: u8,
    /// Frame delay in centiseconds.
    pub delay: u16,
    /// RGBA pixels of the sub-rectangle.
    pub pixels: Seq<u8>,
}

impl View for DeltaFrame {
    type V = DeltaView;

    open spec fn view(&self) -> DeltaView {
        DeltaView {
            left: self.left as nat,
            top: self.top as nat,
            width: self.width as nat,
            height: self.height as nat,
            dispose: self.dispose,
            delay: self.delay,
            pixels: self.pixels@,
        }
    }
}

/// A delta frame is well formed when its pixel data covers its sub-rectangle
/// exactly: 4 bytes for each of its `width * height` pixels.
pub open spec fn wf_frame(f: DeltaView) -> bool {
    f.pixels.len() == 4 * f.width * f.height
}

/// The mathematical image of a parsed frame sequence.
pub open spec fn frames_view(s: Seq<DeltaFrame>) -> Seq<DeltaView> {
    s.map_values(|f: DeltaFrame| f@)
}

} // verus!
