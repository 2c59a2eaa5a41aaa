//! The animation state and the public operations over it: populate from raw
//! bytes, read and advance the playback cursor, stamp an overlay onto every
//! snapshot and re-encode.

use vstd::prelude::*;

use crate::canvas::{clone_bytes, lemma_snapshot_len, overlay_blend, zero_vec, zeros};
use crate::decode::{
    build_snapshots, canvas_fits, decode_ok, decoded_view, delay_seq, gif_decoded, parse_gif,
    snapshot_seq,
};
use crate::encode::{
    enc_dims, enc_frames, encoder_finish, encoder_new, encoder_write_rgba, gif_bytes_of,
};
use crate::error::GifError;
use crate::Dimensions;

verus! {

/// Delay reported when no animation is loaded, in centiseconds.
pub const DEFAULT_FRAME_DELAY: u16 = 100;

/// Decoded animation state: the fully composited snapshot sequence with
/// per-frame delays, the canvas size, and a playback cursor that wraps
/// around.
pub struct GifProcessor {
    /// Fully composited RGBA snapshot of each frame, `width * height * 4`
    /// bytes apiece.
    frames: Vec<Vec<u8>>,
    /// Canvas width in pixels.
    width: usize,
    /// Canvas height in pixels.
    height: usize,
    /// Index of the frame at the playback cursor.
    current_frame: usize,
    /// Delay of each frame in centiseconds.
    frame_delays: Vec<u16>,
}

impl GifProcessor {
    /// The stored snapshot sequence.
    pub closed spec fn snapshots(self) -> Seq<Seq<u8>> {
        self.frames@.map_values(|v: Vec<u8>| v@)
    }

    /// The stored per-frame delays.
    pub closed spec fn delays(self) -> Seq<u16> {
        self.frame_delays@
    }

    /// The playback cursor.
    pub closed spec fn cursor(self) -> nat {
        self.current_frame as nat
    }

    /// Canvas width in pixels.
    pub closed spec fn width_px(self) -> nat {
        self.width as nat
    }

    /// Canvas height in pixels.
    pub closed spec fn height_px(self) -> nat {
        self.height as nat
    }

    /// A populated, well-formed state keeps its cursor on a valid snapshot
    /// index.
    pub proof fn lemma_cursor_in_range(self)
        requires
            self.inv(),
            self.snapshots().len() > 0,
        ensures
            self.cursor() < self.snapshots().len(),
    {
    }

    /// Well-formedness of the state: delays pair off with snapshots, every
    /// snapshot covers the canvas exactly, the canvas fits in memory and in
    /// the GIF format's 16-bit size fields, and the cursor is a valid index
    /// whenever the state is populated.
    pub closed spec fn inv(self) -> bool {
        &&& self.frames@.len() == self.frame_delays@.len()
        &&& forall|i: int|
            0 <= i < self.frames@.len() ==> (#[trigger] self.frames@[i])@.len() == 4 * self.width
                * self.height
        &&& self.width <= u16::MAX
        &&& self.height <= u16::MAX
        &&& 4 * self.width * self.height <= usize::MAX
        &&& if self.frames@.len() == 0 {
            self.current_frame == 0
        } else {
            self.current_frame < self.frames@.len()
        }
    }

    /// The (pixels, delay) pairs the overlay pipeline writes out: every
    /// stored snapshot with the overlay stamped on, in order, paired with
    /// its own delay.
    pub open spec fn composited(self, overlay: Seq<u8>) -> Seq<(Seq<u8>, u16)> {
        Seq::new(
            self.snapshots().len(),
            |i: int| (overlay_blend(self.snapshots()[i], overlay), self.delays()[i]),
        )
    }

    /// Creates an empty processor; it must be populated with `process_gif`
    /// before the other operations do anything useful.
    pub fn new() -> (p: GifProcessor)
        ensures
            p.inv(),
            p.snapshots().len() == 0,
            p.delays().len() == 0,
            p.cursor() == 0,
            p.width_px() == 0,
            p.height_px() == 0,
    {
        let p = GifProcessor {
            frames: Vec::new(),
            width: 0,
            height: 0,
            current_frame: 0,
            frame_delays: Vec::new(),
        };
        proof {
            assert(p.snapshots() =~= Seq::<Seq<u8>>::empty());
        }
        p
    }

    /// Decodes a GIF byte stream and replaces the whole state with its
    /// snapshot sequence, delays and canvas size, resetting the cursor.
    /// Empty input and streams without a single frame are rejected as
    /// `InvalidState`; streams the parser refuses, and canvases too large to
    /// allocate, as `DecodeError`. A failure leaves the prior state exactly
    /// as it was.
    pub fn process_gif(&mut self, gif_data: &[u8]) -> (r: Result<(), GifError>)
        requires
            old(self).inv(),
        ensures
            final(self).inv(),
            r is Ok <==> decode_ok(gif_data@),
            r is Err ==> *final(self) == *old(self),
            (r matches Err(e) && e is InvalidState) <==> (gif_data@.len() == 0 || (
            gif_data@.len() > 0 && gif_decoded(gif_data@) is Some && decoded_view(
                gif_data@,
            ).frames.len() == 0)),
            (r matches Err(e) && e is DecodeError) <==> (gif_data@.len() > 0 && (gif_decoded(
                gif_data@,
            ) is None || (gif_decoded(gif_data@) is Some && decoded_view(gif_data@).frames.len()
                > 0 && !canvas_fits(gif_data@)))),
            r is Ok ==> {
                &&& final(self).width_px() == decoded_view(gif_data@).width as nat
                &&& final(self).height_px() == decoded_view(gif_data@).height as nat
                &&& final(self).cursor() == 0
                &&& final(self).snapshots() == snapshot_seq(gif_data@)
                &&& final(self).delays() == delay_seq(gif_data@)
            },
    {
        if gif_data.len() == 0 {
            return Err(GifError::InvalidState(String::from_str("Empty GIF data provided")));
        }
        match parse_gif(gif_data) {
            Err(msg) => Err(GifError::DecodeError(msg)),
            Ok((w, h, dframes)) => {
                if dframes.len() == 0 {
                    return Err(GifError::InvalidState(String::from_str("No frames found in GIF")));
                }
                proof {
                    assert((w as int) * (h as int) <= 0xffff * 0xffff) by (nonlinear_arith)
                        requires
                            w <= 0xffff,
                            h <= 0xffff,
                    ;
                }
                let area = (w as usize) * (h as usize);
                let total = match area.checked_mul(4) {
                    Some(t) => t,
                    None => {
                        proof {
                            assert(area * 4 == 4 * (w as int) * (h as int)) by (nonlinear_arith)
                                requires
                                    area == (w as int) * (h as int),
                            ;
                        }
                        return Err(
                            GifError::DecodeError(
                                String::from_str("canvas too large for this machine"),
                            ),
                        );
                    },
                };
                proof {
                    assert(area * 4 == 4 * (w as int) * (h as int)) by (nonlinear_arith)
                        requires
                            area == (w as int) * (h as int),
                    ;
                }
                let (snaps, delays) = build_snapshots(&dframes, w, h);
                let ghost snapsv = snaps@;
                let ghost delaysv = delays@;
                self.width = w as usize;
                self.height = h as usize;
                self.current_frame = 0;
                self.frames = snaps;
                self.frame_delays = delays;
                proof {
                    let g = decoded_view(gif_data@);
                    assert forall|i: int| 0 <= i < snapsv.len() implies (#[trigger] self.snapshots()[i])
                        == snapshot_seq(gif_data@)[i] by {
                        assert(self.snapshots()[i] == snapsv[i]@);
                    }
                    assert(self.snapshots() =~= snapshot_seq(gif_data@));
                    assert forall|i: int| 0 <= i < delaysv.len() implies (#[trigger] self.delays()[i])
                        == delay_seq(gif_data@)[i] by {
                        assert(g.frames[i].delay == dframes@[i]@.delay);
                    }
                    assert(self.delays() =~= delay_seq(gif_data@));
                    assert forall|i: int| 0 <= i < self.frames@.len() implies (
                    #[trigger] self.frames@[i])@.len() == 4 * self.width * self.height by {
                        lemma_snapshot_len(g.frames, g.width as nat, g.height as nat, i);
                    }
                }
                Ok(())
            },
        }
    }

    /// Advances the playback cursor by one, wrapping to the first frame
    /// after the last; on an empty state it does nothing. Never fails.
    pub fn next_frame(&mut self)
        requires
            old(self).inv(),
        ensures
            final(self).inv(),
            old(self).snapshots().len() > 0 ==> final(self).cursor() == (old(self).cursor() + 1)
                % old(self).snapshots().len(),
            old(self).snapshots().len() == 0 ==> *final(self) == *old(self),
            final(self).snapshots() == old(self).snapshots(),
            final(self).delays() == old(self).delays(),
            final(self).width_px() == old(self).width_px(),
            final(self).height_px() == old(self).height_px(),
    {
        if self.frames.len() > 0 {
            self.current_frame = (self.current_frame + 1) % self.frames.len();
        }
    }

    /// The canvas size of the loaded animation, in pixels.
    pub fn get_dimensions(&self) -> (d: Dimensions)
        ensures
            d.width as nat == self.width_px(),
            d.height as nat == self.height_px(),
    {
        Dimensions { width: self.width, height: self.height }
    }

    /// The delay of the frame at the cursor, in centiseconds; the documented
    /// default when no animation is loaded.
    pub fn get_frame_delay(&self) -> (d: u16)
        requires
            self.inv(),
        ensures
            self.snapshots().len() > 0 ==> d == self.delays()[self.cursor() as int],
            self.snapshots().len() == 0 ==> d == DEFAULT_FRAME_DELAY,
    {
        if self.current_frame < self.frame_delays.len() {
            self.frame_delays[self.current_frame]
        } else {
            DEFAULT_FRAME_DELAY
        }
    }

    /// A copy of the snapshot at the cursor together with the canvas size,
    /// for rendering; `InvalidState` when no animation is loaded.
    pub fn snapshot_at_cursor(&self) -> (r: Result<(Vec<u8>, usize, usize), GifError>)
        requires
            self.inv(),
        ensures
            r is Ok <==> self.snapshots().len() > 0,
            (self.snapshots().len() == 0) <==> (r matches Err(e) && e is InvalidState),
            r matches Ok(t) ==> {
                &&& t.0@ == self.snapshots()[self.cursor() as int]
                &&& t.1 as nat == self.width_px()
                &&& t.2 as nat == self.height_px()
            },
    {
        if self.frames.len() == 0 {
            return Err(GifError::InvalidState(String::from_str("No frames to render")));
        }
        let pixels = clone_bytes(&self.frames[self.current_frame]);
        Ok((pixels, self.width, self.height))
    }

    /// An all-transparent overlay covering the canvas: the overlay an empty
    /// caption rasterizes to.
    pub fn blank_overlay(&self) -> (v: Vec<u8>)
        requires
            self.inv(),
        ensures
            v@ == zeros(4 * self.width_px() * self.height_px()),
    {
        zero_vec(4 * self.width * self.height)
    }

    /// Stamps the overlay onto one frame's pixel data: wherever the
    /// overlay's alpha is nonzero, all four overlay channels replace the
    /// frame's; everywhere else the frame's channels are kept unchanged.
    /// Buffers must be RGBA of equal length.
    pub fn composite_text_overlay(&self, frame_data: &Vec<u8>, text_data: &[u8]) -> (out: Vec<u8>)
        requires
            frame_data@.len() == text_data@.len(),
            text_data@.len() % 4 == 0,
        ensures
            out@ == overlay_blend(frame_data@, text_data@),
    {
        let ghost target = overlay_blend(frame_data@, text_data@);
        let mut out = clone_bytes(frame_data);
        let len = text_data.len();
        let mut i: usize = 0;
        while i < len
            invariant
                i <= len,
                i % 4 == 0,
                len % 4 == 0,
                len == text_data@.len(),
                frame_data@.len() == len,
                out@.len() == len,
                target == overlay_blend(frame_data@, text_data@),
                forall|j: int| 0 <= j < i ==> out@[j] == target[j],
                forall|j: int| i <= j < len ==> out@[j] == frame_data@[j],
            decreases len - i,
        {
            proof {
                vstd::arithmetic::div_mod::lemma_fundamental_div_mod(i as int, 4);
                vstd::arithmetic::div_mod::lemma_fundamental_div_mod(len as int, 4);
                assert(i + 4 <= len) by {
                    assert(4 * (i as int / 4) < 4 * (len as int / 4));
                }
                let q = i as int / 4;
                vstd::arithmetic::div_mod::lemma_fundamental_div_mod_converse(i as int, 4, q, 0);
                vstd::arithmetic::div_mod::lemma_fundamental_div_mod_converse(
                    i as int + 1,
                    4,
                    q,
                    1,
                );
                vstd::arithmetic::div_mod::lemma_fundamental_div_mod_converse(
                    i as int + 2,
                    4,
                    q,
                    2,
                );
                vstd::arithmetic::div_mod::lemma_fundamental_div_mod_converse(
                    i as int + 3,
                    4,
                    q,
                    3,
                );
            }
            if text_data[i + 3] > 0 {
                out[i] = text_data[i];
                out[i + 1] = text_data[i + 1];
                out[i + 2] = text_data[i + 2];
                out[i + 3] = text_data[i + 3];
            }
            proof {
                assert forall|j: int| 0 <= j < i + 4 implies out@[j] == target[j] by {
                    if i <= j < i + 4 {
                        assert(4 * (j / 4) + 3 == i as int + 3);
                    }
                }
            }
            i = i + 4;
            proof {
                vstd::arithmetic::div_mod::lemma_mod_add_multiples_vanish(i as int - 4, 4);
            }
        }
        proof {
            assert(out@ =~= target);
        }
        out
    }

    /// Stamps the overlay onto every stored snapshot and re-encodes the
    /// results, with their original delays, as an infinitely looping GIF.
    /// `InvalidState` when no animation is loaded; on a populated state
    /// success is owed, since the in-memory GIF writer cannot fail (a write
    /// it rejected would surface as `EncodeError`).
    pub fn process_all_frames_with_text_data(&self, text_data: &[u8]) -> (r: Result<
        Vec<u8>,
        GifError,
    >)
        requires
            self.inv(),
            self.snapshots().len() > 0 ==> text_data@.len() == 4 * self.width_px()
                * self.height_px(),
        ensures
            r is Ok <==> self.snapshots().len() > 0,
            (self.snapshots().len() == 0) <==> (r matches Err(e) && e is InvalidState),
            r matches Ok(out) ==> out@ == gif_bytes_of(
                self.width_px() as u16,
                self.height_px() as u16,
                self.composited(text_data@),
            ),
    {
        if self.frames.len() == 0 {
            return Err(GifError::InvalidState(String::from_str("No frames to process")));
        }
        let w16 = self.width as u16;
        let h16 = self.height as u16;
        let mut enc = match encoder_new(w16, h16) {
            Ok(e) => e,
            Err(m) => { return Err(GifError::EncodeError(m)) },
        };
        proof {
            assert(enc_frames(enc) =~= self.composited(text_data@).take(0));
        }
        let mut i: usize = 0;
        while i < self.frames.len()
            invariant
                self.inv(),
                i <= self.frames@.len(),
                self.frames@.len() > 0,
                w16 as usize == self.width,
                h16 as usize == self.height,
                text_data@.len() == 4 * self.width * self.height,
                enc_dims(enc) == (w16, h16),
                enc_frames(enc) == self.composited(text_data@).take(i as int),
            decreases self.frames@.len() - i,
        {
            proof {
                assert(((self.width * self.height) * 4) % 4 == 0) by {
                    vstd::arithmetic::div_mod::lemma_mod_multiples_basic(
                        self.width as int * self.height as int,
                        4,
                    );
                }
                assert((self.width as int * self.height as int) * 4 == 4 * (self.width as int) * (
                self.height as int)) by (nonlinear_arith);
            }
            let composited_frame = self.composite_text_overlay(&self.frames[i], text_data);
            match encoder_write_rgba(&mut enc, w16, h16, &composited_frame, self.frame_delays[i]) {
                Ok(()) => {},
                Err(m) => { return Err(GifError::EncodeError(m)) },
            }
            proof {
                assert(enc_frames(enc) =~= self.composited(text_data@).take(i as int + 1));
            }
            i = i + 1;
        }
        proof {
            assert(self.composited(text_data@).take(self.frames@.len() as int) =~= self.composited(
                text_data@,
            ));
        }
        match encoder_finish(enc) {
            Ok(out) => Ok(out),
            Err(m) => Err(GifError::EncodeError(m)),
        }
    }
}

} // verus!
