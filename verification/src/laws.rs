//! Library-wide laws, each stated once over the specification model that the
//! public contracts speak in.

use vstd::prelude::*;

use crate::canvas::{
    drawn_at, lemma_pre_draw_len, overlay_blend, pre_draw, px_of, py_of, snapshot, zeros,
};
use crate::decode::{delay_seq, snapshot_seq};
use crate::frame::{DeltaView, DISPOSE_BACKGROUND, DISPOSE_PREVIOUS};
use crate::processor::GifProcessor;

verus! {

/// Decoding is deterministic: two states that `process_gif` populated from
/// identical byte streams hold byte-identical snapshot sequences and
/// identical delays.
pub proof fn lemma_process_deterministic(a: GifProcessor, b: GifProcessor, d1: Seq<u8>, d2: Seq<u8>)
    requires
        d1 == d2,
        a.snapshots() == snapshot_seq(d1),
        a.delays() == delay_seq(d1),
        b.snapshots() == snapshot_seq(d2),
        b.delays() == delay_seq(d2),
    ensures
        a.snapshots() == b.snapshots(),
        a.delays() == b.delays(),
{
}

/// Reset-to-background: once frame `n` with that disposal code has been
/// shown, the canvas frame `n + 1` inherits is entirely transparent black,
/// so frame `n + 1`'s snapshot is zero at every byte it does not itself
/// draw.
pub proof fn lemma_reset_to_background(frames: Seq<DeltaView>, w: nat, h: nat, n: int, i: int)
    requires
        0 <= n,
        n + 1 < frames.len(),
        frames[n].dispose == DISPOSE_BACKGROUND,
        0 <= i < 4 * w * h,
        !drawn_at(frames[n + 1], px_of(w, i), py_of(w, i)),
    ensures
        pre_draw(frames, w, h, n + 1) == zeros(4 * w * h),
        snapshot(frames, w, h, n + 1)[i] == 0,
{
    lemma_pre_draw_len(frames, w, h, n);
}

/// Restore-to-previous round trip: once frame `n` with that disposal code
/// has been shown, the canvas frame `n + 1` draws onto equals the canvas
/// from before frame `n` was applied.
pub proof fn lemma_restore_to_previous(frames: Seq<DeltaView>, w: nat, h: nat, n: int)
    requires
        0 <= n,
        n + 1 < frames.len(),
        frames[n].dispose == DISPOSE_PREVIOUS,
    ensures
        pre_draw(frames, w, h, n + 1) == pre_draw(frames, w, h, n),
{
}

/// Compositing correctness, pixel by pixel: where the overlay's alpha is
/// nonzero the blended output carries the overlay's four channels exactly,
/// and where it is zero the output carries the base's channels exactly.
pub proof fn lemma_overlay_blend_pixel(base: Seq<u8>, overlay: Seq<u8>, p: int)
    requires
        base.len() == overlay.len(),
        0 <= p,
        4 * p + 3 < base.len(),
    ensures
        overlay[4 * p + 3] > 0 ==> forall|c: int|
            0 <= c < 4 ==> #[trigger] overlay_blend(base, overlay)[4 * p + c] == overlay[4 * p
                + c],
        overlay[4 * p + 3] == 0 ==> forall|c: int|
            0 <= c < 4 ==> #[trigger] overlay_blend(base, overlay)[4 * p + c] == base[4 * p + c],
{
    assert forall|c: int| 0 <= c < 4 implies #[trigger] overlay_blend(base, overlay)[4 * p + c]
        == (if overlay[4 * p + 3] > 0 {
        overlay[4 * p + c]
    } else {
        base[4 * p + c]
    }) by {
        vstd::arithmetic::div_mod::lemma_fundamental_div_mod_converse(4 * p + c, 4, p, c);
    }
}

/// The cursor after `k` calls of `next_frame` on a state with `len`
/// snapshots: each call moves the cursor from `c` to `(c + 1) % len`.
pub open spec fn advanced_cursor(c: int, len: int, k: nat) -> int
    decreases k,
{
    if k == 0 {
        c
    } else {
        (advanced_cursor(c, len, (k - 1) as nat) + 1) % len
    }
}

/// Advancing `k` times lands on `(c + k) % len`.
pub proof fn lemma_advanced_cursor_mod(c: int, len: int, k: nat)
    requires
        0 < len,
        0 <= c < len,
    ensures
        advanced_cursor(c, len, k) == (c + k) % len,
    decreases k,
{
    if k == 0 {
        vstd::arithmetic::div_mod::lemma_small_mod(c as nat, len as nat);
    } else {
        lemma_advanced_cursor_mod(c, len, (k - 1) as nat);
        vstd::arithmetic::div_mod::lemma_add_mod_noop_right(1, c + k - 1, len);
    }
}

/// Cursor wraparound: advancing exactly as many times as there are
/// snapshots returns the cursor to where it started.
pub proof fn lemma_cursor_wraparound(c: int, len: int)
    requires
        0 < len,
        0 <= c < len,
    ensures
        advanced_cursor(c, len, len as nat) == c,
{
    lemma_advanced_cursor_mod(c, len, len as nat);
    vstd::arithmetic::div_mod::lemma_mod_add_multiples_vanish(c, len);
    vstd::arithmetic::div_mod::lemma_small_mod(c as nat, len as nat);
}

} // verus!
