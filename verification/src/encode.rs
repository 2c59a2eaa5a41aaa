//! Serializing snapshot sequences back into GIF bytes through the `gif`
//! crate's encoder.

use vstd::prelude::*;

verus! {

/// The `gif` crate's encoder, writing to an in-memory buffer. Opaque to
/// verification: its state is spoken of only through `enc_frames` and
/// `enc_dims`.
#[verifier::external_body]
pub struct GifWriter {
    inner: gif::Encoder<Vec<u8>>,
}

/// The full-canvas RGBA frames written to an in-memory encoder so far, each
/// paired with its delay, in write order.
pub uninterp spec fn enc_frames(e: GifWriter) -> Seq<(Seq<u8>, u16)>;

/// The canvas size an in-memory encoder was created with, as
/// (width, height).
pub uninterp spec fn enc_dims(e: GifWriter) -> (u16, u16);

/// The finished byte stream that an encoder made by `encoder_new` (no global
/// palette, infinite repeat) produces for a given canvas size and sequence
/// of written (pixels, delay) pairs. The `gif` crate's encoding, palette
/// quantization included, depends on those inputs alone.
pub uninterp spec fn gif_bytes_of(width: u16, height: u16, written: Seq<(Seq<u8>, u16)>) -> Seq<
    u8,
>;

/// Relies on `gif::Encoder::new` and `gif::Encoder::set_repeat`: creates an
/// encoder writing to a fresh in-memory buffer, with no global palette and
/// an infinite-loop application extension; nothing has been written to it.
/// Success is promised: the empty palette passes the color-table check, and
/// every write goes into a `Vec`, whose `Write` impl cannot fail.
#[verifier::external_body]
pub(crate) fn encoder_new(width: u16, height: u16) -> (r: Result<GifWriter, String>)
    ensures
        r is Ok,
        r matches Ok(e) ==> enc_dims(e) == (width, height) && enc_frames(e) == Seq::<(
            Seq<u8>,
            u16,
        )>::empty(),
{
    let mut enc = gif::Encoder::new(Vec::new(), width, height, &[]).map_err(|e| e.to_string())?;
    enc.set_repeat(gif::Repeat::Infinite).map_err(|e| e.to_string())?;
    Ok(GifWriter { inner: enc })
}

/// Relies on `gif::Frame::from_rgba` and `gif::Encoder::write_frame`:
/// appends one full-canvas RGBA frame with the given delay and disposal
/// `keep`. `from_rgba` panics unless the buffer holds exactly
/// `width * height * 4` bytes, so that is required here. Success is
/// promised: `from_rgba` yields one palette index per pixel and a local
/// palette of at most 256 entries, so `write_frame`'s size and color-table
/// checks pass, and writes into a `Vec` cannot fail.
#[verifier::external_body]
pub(crate) fn encoder_write_rgba(
    enc: &mut GifWriter,
    width: u16,
    height: u16,
    pixels: &Vec<u8>,
    delay: u16,
) -> (r: Result<(), String>)
    requires
        enc_dims(*old(enc)) == (width, height),
        pixels@.len() == 4 * (width as nat) * (height as nat),
    ensures
        r is Ok,
        enc_dims(*final(enc)) == enc_dims(*old(enc)),
        enc_frames(*final(enc)) == enc_frames(*old(enc)).push((pixels@, delay)),
{
    let mut data = pixels.clone();
    let mut frame = gif::Frame::from_rgba(width, height, &mut data);
    frame.delay = delay;
    frame.dispose = gif::DisposalMethod::Keep;
    enc.inner.write_frame(&frame).map_err(|e| e.to_string())
}

/// Relies on `gif::Encoder::into_inner`: writes the GIF trailer and hands
/// back the finished output buffer, whose contents `gif_bytes_of` names.
/// Success is promised: the trailer write goes into a `Vec` and the writer
/// is still held, so `into_inner` cannot fail.
#[verifier::external_body]
pub(crate) fn encoder_finish(enc: GifWriter) -> (r: Result<Vec<u8>, String>)
    ensures
        r is Ok,
        r matches Ok(out) ==> out@ == gif_bytes_of(
            enc_dims(enc).0,
            enc_dims(enc).1,
            enc_frames(enc),
        ),
{
    enc.inner.into_inner().map_err(|e| e.to_string())
}

} // verus!
