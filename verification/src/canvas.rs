//! The frame-reconstruction model: how delta frames and their disposal
//! methods turn a running live canvas into full-frame snapshots.

use vstd::prelude::*;

use crate::frame::{DeltaFrame, DeltaView, DISPOSE_BACKGROUND, DISPOSE_PREVIOUS, wf_frame};

verus! {

/// An all-transparent (zero) canvas of `n` bytes.
pub open spec fn zeros(n: nat) -> Seq<u8> {
    Seq::new(n, |i: int| 0u8)
}

/// Column of the canvas pixel that byte `i` of a canvas of width `w` belongs
/// to.
pub open spec fn px_of(w: nat, i: int) -> int {
    (i / 4) % (w as int)
}

/// Row of the canvas pixel that byte `i` of a canvas of width `w` belongs to.
pub open spec fn py_of(w: nat, i: int) -> int {
    (i / 4) / (w as int)
}

/// Byte offset in `f.pixels` of the frame pixel that lands on canvas pixel
/// `(px, py)`.
pub open spec fn src_base(f: DeltaView, px: int, py: int) -> int {
    4 * ((py - f.top) * f.width + (px - f.left))
}

/// Whether frame `f` draws canvas pixel `(px, py)`: the pixel lies inside the
/// frame's sub-rectangle and the frame's own pixel there is not fully
/// transparent (alpha 0 is never drawn over existing content).
pub open spec fn drawn_at(f: DeltaView, px: int, py: int) -> bool {
    &&& f.left <= px < f.left + f.width
    &&& f.top <= py < f.top + f.height
    &&& f.pixels[src_base(f, px, py) + 3] > 0
}

/// The canvas after frame `f` is composited onto `base`; `w` is the canvas
/// width in pixels. Frame pixels outside the canvas are discarded, and fully
/// transparent frame pixels leave the base untouched.
pub open spec fn draw(base: Seq<u8>, f: DeltaView, w: nat) -> Seq<u8> {
    Seq::new(
        base.len(),
        |i: int|
            if drawn_at(f, px_of(w, i), py_of(w, i)) {
                f.pixels[src_base(f, px_of(w, i), py_of(w, i)) + (i % 4)]
            } else {
                base[i]
            },
    )
}

/// The canvas a frame's disposal code leaves behind for the next frame,
/// given the canvas the frame drew onto (`pre`) and the canvas as drawn
/// (`drawn`). Disposal runs after the frame's own snapshot is taken:
/// - `DISPOSE_BACKGROUND` clears the whole canvas to transparent black;
/// - `DISPOSE_PREVIOUS` restores the canvas to the state it had before this
///   frame was drawn — a single-slot rollback;
/// - any other code leaves the drawn canvas in place.
pub open spec fn dispose_step(pre: Seq<u8>, drawn: Seq<u8>, dispose: u8) -> Seq<u8> {
    if dispose == DISPOSE_BACKGROUND {
        zeros(pre.len())
    } else if dispose == DISPOSE_PREVIOUS {
        pre
    } else {
        drawn
    }
}

/// The live canvas frame `n` draws onto: all-transparent for the first
/// frame, and for each later frame whatever the prior frame's disposal code
/// left behind.
pub open spec fn pre_draw(frames: Seq<DeltaView>, w: nat, h: nat, n: int) -> Seq<u8>
    decreases n,
{
    if n <= 0 {
        zeros(4 * w * h)
    } else {
        let pre = pre_draw(frames, w, h, n - 1);
        dispose_step(pre, draw(pre, frames[n - 1], w), frames[n - 1].dispose)
    }
}

/// The fully composited appearance of the animation at frame `n`.
pub open spec fn snapshot(frames: Seq<DeltaView>, w: nat, h: nat, n: int) -> Seq<u8> {
    draw(pre_draw(frames, w, h, n), frames[n], w)
}

/// The live canvas always holds exactly `4 * w * h` bytes.
pub proof fn lemma_pre_draw_len(frames: Seq<DeltaView>, w: nat, h: nat, n: int)
    ensures
        pre_draw(frames, w, h, n).len() == 4 * w * h,
    decreases n,
{
    if n > 0 {
        lemma_pre_draw_len(frames, w, h, n - 1);
    }
}

/// Every snapshot holds exactly `4 * w * h` bytes.
pub proof fn lemma_snapshot_len(frames: Seq<DeltaView>, w: nat, h: nat, n: int)
    ensures
        snapshot(frames, w, h, n).len() == 4 * w * h,
{
    lemma_pre_draw_len(frames, w, h, n);
}

/// The binary replace-or-keep overlay: wherever the overlay's alpha channel
/// is nonzero, all four overlay channels replace the base pixel's channels;
/// everywhere else the base pixel is kept unchanged.
pub open spec fn overlay_blend(base: Seq<u8>, overlay: Seq<u8>) -> Seq<u8> {
    Seq::new(
        base.len(),
        |i: int| if overlay[4 * (i / 4) + 3] > 0 {
            overlay[i]
        } else {
            base[i]
        },
    )
}

/// Canvas byte `i` lies under a frame pixel that a row-major walk of `f`'s
/// sub-rectangle has already passed: a row before `y`, or row `y` left of
/// column `x`.
pub open spec fn visited(f: DeltaView, w: nat, y: int, x: int, i: int) -> bool {
    let px = px_of(w, i);
    let py = py_of(w, i);
    &&& f.left <= px < f.left + f.width
    &&& f.top <= py < f.top + f.height
    &&& (py - f.top) * f.width + (px - f.left) < y * f.width + x
}

/// The canvas byte `4 * (py * w + px) + c` belongs to channel `c` of canvas
/// pixel `(px, py)`.
proof fn lemma_byte_coords(w: nat, px: int, py: int, c: int)
    requires
        0 <= px < w,
        0 <= py,
        0 <= c < 4,
    ensures
        (4 * (py * w + px) + c) / 4 == py * w + px,
        (4 * (py * w + px) + c) % 4 == c,
        px_of(w, 4 * (py * w + px) + c) == px,
        py_of(w, 4 * (py * w + px) + c) == py,
{
    let p = py * w + px;
    vstd::arithmetic::div_mod::lemma_fundamental_div_mod_converse(4 * p + c, 4, p, c);
    vstd::arithmetic::div_mod::lemma_fundamental_div_mod_converse(p, w as int, py, px);
}

/// Two frame pixels with the same row-major rank are the same pixel.
proof fn lemma_rank_coords(fw: nat, a: int, b: int, x: int, y: int)
    requires
        fw > 0,
        0 <= a < fw,
        0 <= x < fw,
        b * fw + a == y * fw + x,
    ensures
        a == x,
        b == y,
{
    let e = b * fw + a;
    vstd::arithmetic::div_mod::lemma_fundamental_div_mod_converse(e, fw as int, b, a);
    vstd::arithmetic::div_mod::lemma_fundamental_div_mod_converse(e, fw as int, y, x);
}

/// Every byte index of a `4 * w * h` canvas belongs to a pixel inside it.
proof fn lemma_pixel_bounds(w: nat, h: nat, i: int)
    requires
        0 <= i < 4 * w * h,
    ensures
        0 <= px_of(w, i) < w,
        0 <= py_of(w, i) < h,
        0 <= i % 4 < 4,
        i == 4 * (py_of(w, i) * w + px_of(w, i)) + (i % 4),
{
    assert(w > 0 && h > 0) by (nonlinear_arith)
        requires
            4 * w * h > 0,
    ;
    vstd::arithmetic::div_mod::lemma_fundamental_div_mod(i, 4);
    vstd::arithmetic::div_mod::lemma_mod_bound(i, 4);
    let p = i / 4;
    let r = i % 4;
    assert(p < w * h) by (nonlinear_arith)
        requires
            i == 4 * p + r,
            0 <= r < 4,
            i < 4 * w * h,
    ;
    vstd::arithmetic::div_mod::lemma_div_pos_is_pos(i, 4);
    vstd::arithmetic::div_mod::lemma_fundamental_div_mod(p, w as int);
    vstd::arithmetic::div_mod::lemma_mod_bound(p, w as int);
    vstd::arithmetic::div_mod::lemma_div_pos_is_pos(p, w as int);
    vstd::arithmetic::div_mod::lemma_multiply_divide_lt(p, w as int, h as int);
    assert(i == 4 * (py_of(w, i) * w + px_of(w, i)) + (i % 4)) by (nonlinear_arith)
        requires
            i == 4 * p + r,
            r == i % 4,
            p == w * (py_of(w, i)) + px_of(w, i),
            py_of(w, i) == p / (w as int),
            px_of(w, i) == p % (w as int),
    ;
}

/// An all-zero byte vector of length `n`.
pub fn zero_vec(n: usize) -> (v: Vec<u8>)
    ensures
        v@ == zeros(n as nat),
{
    let mut v: Vec<u8> = Vec::new();
    let mut i: usize = 0;
    while i < n
        invariant
            i <= n,
            v@.len() == i,
            forall|j: int| 0 <= j < i ==> v@[j] == 0u8,
        decreases n - i,
    {
        v.push(0u8);
        i = i + 1;
    }
    proof {
        assert(v@ =~= zeros(n as nat));
    }
    v
}

/// Overwrites every byte of `v` with zero, as a background reset does.
pub fn zero_fill(v: &mut Vec<u8>)
    ensures
        final(v)@ == zeros(old(v)@.len()),
{
    let n = v.len();
    let mut i: usize = 0;
    while i < n
        invariant
            i <= n,
            v@.len() == n,
            forall|j: int| 0 <= j < i ==> v@[j] == 0u8,
        decreases n - i,
    {
        v[i] = 0u8;
        i = i + 1;
    }
    proof {
        assert(v@ =~= zeros(old(v)@.len()));
    }
}

/// Overwrites `dst` with the bytes of `src`, which must have equal length.
pub fn copy_into(dst: &mut Vec<u8>, src: &Vec<u8>)
    requires
        old(dst)@.len() == src@.len(),
    ensures
        final(dst)@ == src@,
{
    let n = src.len();
    let mut i: usize = 0;
    while i < n
        invariant
            i <= n,
            dst@.len() == n,
            src@.len() == n,
            forall|j: int| 0 <= j < i ==> dst@[j] == src@[j],
        decreases n - i,
    {
        dst[i] = src[i];
        i = i + 1;
    }
    proof {
        assert(dst@ =~= src@);
    }
}

/// A fresh copy of the bytes of `src`.
pub fn clone_bytes(src: &Vec<u8>) -> (r: Vec<u8>)
    ensures
        r@ == src@,
{
    let n = src.len();
    let mut r: Vec<u8> = Vec::new();
    let mut i: usize = 0;
    while i < n
        invariant
            i <= n,
            r@.len() == i,
            src@.len() == n,
            forall|j: int| 0 <= j < i ==> r@[j] == src@[j],
        decreases n - i,
    {
        r.push(src[i]);
        i = i + 1;
    }
    proof {
        assert(r@ =~= src@);
    }
    r
}

/// Composites one delta frame onto the live canvas, exactly as `draw`
/// describes it: frame pixels outside the canvas are silently discarded, and
/// fully transparent frame pixels never overwrite existing content.
pub fn apply_delta(canvas: &mut Vec<u8>, f: &DeltaFrame, width: u16, height: u16)
    requires
        wf_frame(f@),
        old(canvas)@.len() == 4 * (width as nat) * (height as nat),
    ensures
        final(canvas)@ == draw(old(canvas)@, f@, width as nat),
{
    let fw = f.width as usize;
    let fh = f.height as usize;
    let w = width as usize;
    let h = height as usize;
    let pl = f.pixels.len();
    let ghost wn = width as nat;
    let ghost target = draw(old(canvas)@, f@, wn);
    let mut y: usize = 0;
    while y < fh
        invariant
            y <= fh,
            fw == f@.width,
            fh == f@.height,
            w == width,
            h == height,
            wn == width as nat,
            wf_frame(f@),
            pl == f@.pixels.len(),
            canvas@.len() == old(canvas)@.len(),
            old(canvas)@.len() == 4 * (width as nat) * (height as nat),
            target == draw(old(canvas)@, f@, wn),
            forall|i: int|
                0 <= i < canvas@.len() ==> canvas@[i] == (if visited(
                    f@,
                    wn,
                    y as int,
                    0,
                    i,
                ) {
                    target[i]
                } else {
                    old(canvas)@[i]
                }),
        decreases fh - y,
    {
        let mut x: usize = 0;
        while x < fw
            invariant
                y < fh,
                x <= fw,
                fw == f@.width,
                fh == f@.height,
                w == width,
                h == height,
                wn == width as nat,
                wf_frame(f@),
                pl == f@.pixels.len(),
                canvas@.len() == old(canvas)@.len(),
                old(canvas)@.len() == 4 * (width as nat) * (height as nat),
                target == draw(old(canvas)@, f@, wn),
                forall|i: int|
                    0 <= i < canvas@.len() ==> canvas@[i] == (if visited(
                        f@,
                        wn,
                        y as int,
                        x as int,
                        i,
                    ) {
                        target[i]
                    } else {
                        old(canvas)@[i]
                    }),
            decreases fw - x,
        {
            let ghost pre = canvas@;
            proof {
                assert(0 <= y * fw + x && (y * fw + x) * 4 + 3 < 4 * (fw as int) * (fh
                    as int)) by (nonlinear_arith)
                    requires
                        0 <= y < fh,
                        0 <= x < fw,
                ;
                assert(4 * (fw as int) * (fh as int) == pl);
            }
            let src_idx = (y * fw + x) * 4;
            let cx = (f.left as usize) + x;
            let cy = (f.top as usize) + y;
            if cx < w && cy < h {
                let cl = canvas.len();
                proof {
                    assert(0 <= cy * w + cx && (cy * w + cx) * 4 + 3 < 4 * (w as int) * (h
                        as int)) by (nonlinear_arith)
                        requires
                            0 <= cy < h,
                            0 <= cx < w,
                    ;
                    assert(4 * (w as int) * (h as int) == cl);
                }
                let dst = (cy * w + cx) * 4;
                if f.pixels[src_idx + 3] > 0 {
                    canvas[dst] = f.pixels[src_idx];
                    canvas[dst + 1] = f.pixels[src_idx + 1];
                    canvas[dst + 2] = f.pixels[src_idx + 2];
                    canvas[dst + 3] = f.pixels[src_idx + 3];
                    proof {
                        lemma_byte_coords(wn, cx as int, cy as int, 0);
                        lemma_byte_coords(wn, cx as int, cy as int, 1);
                        lemma_byte_coords(wn, cx as int, cy as int, 2);
                        lemma_byte_coords(wn, cx as int, cy as int, 3);
                        assert(drawn_at(f@, cx as int, cy as int));
                        assert(canvas@[dst as int] == target[dst as int]);
                        assert(canvas@[dst + 1] == target[dst + 1]);
                        assert(canvas@[dst + 2] == target[dst + 2]);
                        assert(canvas@[dst + 3] == target[dst + 3]);
                    }
                } else {
                    proof {
                        lemma_byte_coords(wn, cx as int, cy as int, 3);
                        assert(!drawn_at(f@, cx as int, cy as int));
                    }
                }
                proof {
                    assert forall|i: int|
                        0 <= i < canvas@.len() implies canvas@[i] == (if visited(
                        f@,
                        wn,
                        y as int,
                        x as int + 1,
                        i,
                    ) {
                        target[i]
                    } else {
                        old(canvas)@[i]
                    }) by {
                        lemma_pixel_bounds(wn, height as nat, i);
                        let px = px_of(wn, i);
                        let py = py_of(wn, i);
                        if visited(f@, wn, y as int, x as int + 1, i) && !visited(
                            f@,
                            wn,
                            y as int,
                            x as int,
                            i,
                        ) {
                            lemma_rank_coords(
                                f@.width,
                                px - f@.left,
                                py - f@.top,
                                x as int,
                                y as int,
                            );
                            assert(px == cx && py == cy);
                            assert(i == 4 * (cy * wn + cx) + (i % 4));
                            if f@.pixels[src_idx + 3] > 0 {
                                assert(canvas@[i] == target[i]);
                            } else {
                                assert(!drawn_at(f@, px, py));
                                assert(target[i] == old(canvas)@[i]);
                                assert(canvas@[i] == pre[i]);
                            }
                        } else {
                            if !(dst <= i < dst + 4) {
                                assert(canvas@[i] == pre[i]);
                            } else {
                                lemma_byte_coords(wn, cx as int, cy as int, i - dst);
                                assert(px == cx && py == cy);
                                assert(visited(f@, wn, y as int, x as int + 1, i));
                            }
                        }
                    }
                }
            } else {
                proof {
                    assert forall|i: int|
                        0 <= i < canvas@.len() implies canvas@[i] == (if visited(
                        f@,
                        wn,
                        y as int,
                        x as int + 1,
                        i,
                    ) {
                        target[i]
                    } else {
                        old(canvas)@[i]
                    }) by {
                        lemma_pixel_bounds(wn, height as nat, i);
                        let px = px_of(wn, i);
                        let py = py_of(wn, i);
                        if visited(f@, wn, y as int, x as int + 1, i) && !visited(
                            f@,
                            wn,
                            y as int,
                            x as int,
                            i,
                        ) {
                            lemma_rank_coords(
                                f@.width,
                                px - f@.left,
                                py - f@.top,
                                x as int,
                                y as int,
                            );
                            assert(false);
                        }
                    }
                }
            }
            x = x + 1;
        }
        proof {
            assert forall|i: int| 0 <= i < canvas@.len() implies (visited(
                f@,
                wn,
                y as int,
                fw as int,
                i,
            ) == visited(f@, wn, y as int + 1, 0, i)) by {
                assert((y as int) * f@.width + f@.width == (y as int + 1) * f@.width)
                    by (nonlinear_arith);
            }
        }
        y = y + 1;
    }
    proof {
        assert forall|i: int| 0 <= i < canvas@.len() implies canvas@[i] == target[i] by {
            lemma_pixel_bounds(wn, height as nat, i);
            let px = px_of(wn, i);
            let py = py_of(wn, i);
            if f@.left <= px < f@.left + f@.width && f@.top <= py < f@.top + f@.height {
                assert((py - f@.top) * f@.width + (px - f@.left) < (fh as int) * f@.width
                    + 0) by (nonlinear_arith)
                    requires
                        0 <= py - f@.top < f@.height,
                        0 <= px - f@.left < f@.width,
                        fh == f@.height,
                ;
                assert(visited(f@, wn, fh as int, 0, i));
            } else {
                assert(!drawn_at(f@, px, py));
            }
        }
        assert(canvas@ =~= target);
    }
}

} // verus!
