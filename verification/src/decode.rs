//! Parsing the raw GIF byte stream into delta frames, and reconstructing the
//! full snapshot sequence from them.

use vstd::prelude::*;

use crate::canvas::{
    apply_delta, clone_bytes, copy_into, dispose_step, lemma_pre_draw_len, pre_draw, snapshot,
    zero_fill, zero_vec,
};
use crate::frame::{frames_view, wf_frame, DeltaFrame, DeltaView, DISPOSE_BACKGROUND, DISPOSE_PREVIOUS};

verus! {

/// The global metadata and the delta frames held by a GIF byte stream.
pub ghost struct GifView {
    /// Canvas width declared in the header.
    pub width: u16,
    /// Canvas height declared in the header.
    pub height: u16,
    /// The delta frames, in stream order.
    pub frames: Seq<crate::frame::DeltaView>,
}

/// What the GIF parser yields on a given byte stream: `None` when the stream
/// is rejected, otherwise the header metadata and every delta frame. Parsing
/// is a function of the bytes alone.
pub uninterp spec fn gif_decoded(data: Seq<u8>) -> Option<GifView>;

/// The parsed form of a byte stream that parsed successfully.
pub open spec fn decoded_view(data: Seq<u8>) -> GifView {
    gif_decoded(data)->Some_0
}

/// The snapshot sequence a successfully parsed stream decodes to: the fully
/// composited canvas after each delta frame, in order.
pub open spec fn snapshot_seq(data: Seq<u8>) -> Seq<Seq<u8>> {
    let g = decoded_view(data);
    Seq::new(g.frames.len(), |i: int| snapshot(g.frames, g.width as nat, g.height as nat, i))
}

/// The per-frame delays of a successfully parsed stream, in order.
pub open spec fn delay_seq(data: Seq<u8>) -> Seq<u16> {
    decoded_view(data).frames.map_values(|f: DeltaView| f.delay)
}

/// A canvas of the parsed size can be allocated: its byte count fits the
/// machine word.
pub open spec fn canvas_fits(data: Seq<u8>) -> bool {
    4 * (decoded_view(data).width as nat) * (decoded_view(data).height as nat) <= usize::MAX
}

/// Populating the animation state succeeds exactly on these inputs:
/// non-empty bytes that parse as a GIF holding at least one frame, on a
/// canvas whose byte count is allocatable.
pub open spec fn decode_ok(data: Seq<u8>) -> bool {
    &&& data.len() > 0
    &&& gif_decoded(data) is Some
    &&& decoded_view(data).frames.len() > 0
    &&& canvas_fits(data)
}

/// Relies on `gif::DecodeOptions::read_info` and
/// `gif::Decoder::read_next_frame`, with RGBA color output: whether the
/// stream parses, the canvas size the header declares, and the sequence of
/// raw frames depend on the input bytes alone, and every frame buffer the
/// decoder yields holds exactly `4 * width * height` bytes of RGBA data.
#[verifier::external_body]
pub(crate) fn parse_gif(data: &[u8]) -> (r: Result<(u16, u16, Vec<DeltaFrame>), String>)
    ensures
        r matches Ok(t) ==> {
            &&& gif_decoded(data@) matches Some(g)
            &&& g.width == t.0
            &&& g.height == t.1
            &&& g.frames == frames_view(t.2@)
            &&& forall|i: int| 0 <= i < t.2@.len() ==> wf_frame((#[trigger] t.2@[i])@)
        },
        r is Err ==> gif_decoded(data@) is None,
{
    let mut options = gif::DecodeOptions::new();
    options.set_color_output(gif::ColorOutput::RGBA);
    let mut decoder = options.read_info(std::io::Cursor::new(data)).map_err(|e| e.to_string())?;
    let (w, h) = (decoder.width(), decoder.height());
    let mut frames: Vec<DeltaFrame> = Vec::new();
    loop {
        let next = decoder.read_next_frame().map_err(|e| e.to_string())?;
        match next {
            None => return Ok((w, h, frames)),
            Some(f) => frames.push(DeltaFrame { left: f.left, top: f.top, width: f.width,
                height: f.height, dispose: f.dispose as u8, delay: f.delay,
                pixels: f.buffer.to_vec() }),
        }
    }
}

/// Reconstructs the full snapshot sequence: each delta frame draws onto the
/// live canvas inherited from the prior frame's disposal step, the canvas as
/// drawn is retained as that frame's snapshot, paired with its delay, and
/// the frame's own disposal code then prepares the canvas the next frame
/// draws onto.
pub fn build_snapshots(frames: &Vec<DeltaFrame>, width: u16, height: u16) -> (r: (
    Vec<Vec<u8>>,
    Vec<u16>,
))
    requires
        forall|i: int| 0 <= i < frames@.len() ==> wf_frame((#[trigger] frames@[i])@),
        4 * (width as nat) * (height as nat) <= usize::MAX,
    ensures
        r.0@.len() == frames@.len(),
        r.1@.len() == frames@.len(),
        forall|i: int|
            0 <= i < frames@.len() ==> (#[trigger] r.0@[i])@ == snapshot(
                frames_view(frames@),
                width as nat,
                height as nat,
                i,
            ),
        forall|i: int| 0 <= i < frames@.len() ==> (#[trigger] r.1@[i]) == frames@[i].delay,
{
    let len = 4 * (width as usize) * (height as usize);
    let ghost fv = frames_view(frames@);
    let ghost wn = width as nat;
    let ghost hn = height as nat;
    let mut live = zero_vec(len);
    let mut snaps: Vec<Vec<u8>> = Vec::new();
    let mut delays: Vec<u16> = Vec::new();
    let mut k: usize = 0;
    while k < frames.len()
        invariant
            k <= frames@.len(),
            forall|i: int| 0 <= i < frames@.len() ==> wf_frame((#[trigger] frames@[i])@),
            len == 4 * (width as nat) * (height as nat),
            fv == frames_view(frames@),
            wn == width as nat,
            hn == height as nat,
            live@ == pre_draw(fv, wn, hn, k as int),
            snaps@.len() == k,
            delays@.len() == k,
            forall|i: int| 0 <= i < k ==> (#[trigger] snaps@[i])@ == snapshot(fv, wn, hn, i),
            forall|i: int| 0 <= i < k ==> (#[trigger] delays@[i]) == frames@[i].delay,
        decreases frames@.len() - k,
    {
        let f = &frames[k];
        proof {
            lemma_pre_draw_len(fv, wn, hn, k as int);
            assert(fv[k as int] == frames@[k as int]@);
        }
        let mut drawn = clone_bytes(&live);
        apply_delta(&mut drawn, f, width, height);
        proof {
            assert(drawn@ == snapshot(fv, wn, hn, k as int));
        }
        if f.dispose == DISPOSE_BACKGROUND {
            zero_fill(&mut live);
        } else if f.dispose == DISPOSE_PREVIOUS {
            // The live canvas already holds the state from before this
            // frame was drawn.
        } else {
            copy_into(&mut live, &drawn);
        }
        proof {
            assert(live@ == dispose_step(
                pre_draw(fv, wn, hn, k as int),
                snapshot(fv, wn, hn, k as int),
                fv[k as int].dispose,
            ));
            assert(live@ == pre_draw(fv, wn, hn, k as int + 1));
        }
        snaps.push(drawn);
        delays.push(f.delay);
        k = k + 1;
    }
    (snaps, delays)
}

} // verus!
