//! End-to-end tests of the caption pipeline: decode, composite, re-encode.

use gif_caption::{GifError, GifProcessor, DEFAULT_FRAME_DELAY};

struct TestFrame {
    pixels: Vec<u8>,
    fw: u16,
    fh: u16,
    left: u16,
    top: u16,
    dispose: gif::DisposalMethod,
    delay: u16,
}

fn encode_test_gif(width: u16, height: u16, frames: Vec<TestFrame>) -> Vec<u8> {
    let mut out = Vec::new();
    {
        let mut enc = gif::Encoder::new(&mut out, width, height, &[]).unwrap();
        for tf in frames {
            let mut pixels = tf.pixels;
            let mut frame = gif::Frame::from_rgba(tf.fw, tf.fh, &mut pixels);
            frame.left = tf.left;
            frame.top = tf.top;
            frame.dispose = tf.dispose;
            frame.delay = tf.delay;
            enc.write_frame(&frame).unwrap();
        }
    }
    out
}

fn solid(w: usize, h: usize, rgba: [u8; 4]) -> Vec<u8> {
    let mut v = Vec::with_capacity(w * h * 4);
    for _ in 0..w * h {
        v.extend_from_slice(&rgba);
    }
    v
}

fn all_snapshots(p: &mut GifProcessor, n: usize) -> Vec<Vec<u8>> {
    let mut v = Vec::new();
    for _ in 0..n {
        let (pixels, _, _) = p.snapshot_at_cursor().unwrap();
        v.push(pixels);
        p.next_frame();
    }
    v
}

fn pixel(buf: &[u8], width: usize, x: usize, y: usize) -> [u8; 4] {
    let i = (y * width + x) * 4;
    [buf[i], buf[i + 1], buf[i + 2], buf[i + 3]]
}

const RED: [u8; 4] = [255, 0, 0, 255];
const BLUE: [u8; 4] = [0, 0, 255, 255];
const GREEN: [u8; 4] = [0, 255, 0, 255];
const CLEAR: [u8; 4] = [0, 0, 0, 0];

fn two_frame_input() -> Vec<u8> {
    encode_test_gif(
        10,
        10,
        vec![
            TestFrame {
                pixels: solid(10, 10, RED),
                fw: 10,
                fh: 10,
                left: 0,
                top: 0,
                dispose: gif::DisposalMethod::Keep,
                delay: 5,
            },
            TestFrame {
                pixels: solid(5, 5, BLUE),
                fw: 5,
                fh: 5,
                left: 0,
                top: 0,
                dispose: gif::DisposalMethod::Background,
                delay: 8,
            },
        ],
    )
}

#[test]
fn dimensions_match_header() {
    let data = two_frame_input();
    let mut p = GifProcessor::new();
    p.process_gif(&data).unwrap();
    let d = p.get_dimensions();
    assert_eq!(d.width, 10);
    assert_eq!(d.height, 10);
}

#[test]
fn decoding_is_deterministic() {
    let data = two_frame_input();
    let mut a = GifProcessor::new();
    let mut b = GifProcessor::new();
    a.process_gif(&data).unwrap();
    b.process_gif(&data).unwrap();
    assert_eq!(all_snapshots(&mut a, 2), all_snapshots(&mut b, 2));
}

#[test]
fn two_frame_end_to_end() {
    // Frame 2's disposal affects the next frame, not itself, so snapshot 2
    // keeps frame 1's red pixels outside the blue patch.
    let data = two_frame_input();
    let mut p = GifProcessor::new();
    p.process_gif(&data).unwrap();
    assert_eq!(p.get_frame_delay(), 5);
    let snaps = all_snapshots(&mut p, 2);
    for y in 0..10 {
        for x in 0..10 {
            assert_eq!(pixel(&snaps[0], 10, x, y), RED);
            let expected = if x < 5 && y < 5 { BLUE } else { RED };
            assert_eq!(pixel(&snaps[1], 10, x, y), expected);
        }
    }
    let mut q = GifProcessor::new();
    q.process_gif(&data).unwrap();
    assert_eq!(q.get_frame_delay(), 5);
    q.next_frame();
    assert_eq!(q.get_frame_delay(), 8);
}

#[test]
fn reset_to_background_clears_next_frame() {
    // Frame 1 is shown all red, then its disposal clears the canvas, so
    // frame 2 draws its patch onto transparent black.
    let data = encode_test_gif(
        6,
        6,
        vec![
            TestFrame {
                pixels: solid(6, 6, RED),
                fw: 6,
                fh: 6,
                left: 0,
                top: 0,
                dispose: gif::DisposalMethod::Background,
                delay: 1,
            },
            TestFrame {
                pixels: solid(2, 2, BLUE),
                fw: 2,
                fh: 2,
                left: 3,
                top: 3,
                dispose: gif::DisposalMethod::Keep,
                delay: 1,
            },
        ],
    );
    let mut p = GifProcessor::new();
    p.process_gif(&data).unwrap();
    let snaps = all_snapshots(&mut p, 2);
    for y in 0..6 {
        for x in 0..6 {
            assert_eq!(pixel(&snaps[0], 6, x, y), RED);
            let expected = if (3..5).contains(&x) && (3..5).contains(&y) { BLUE } else { CLEAR };
            assert_eq!(pixel(&snaps[1], 6, x, y), expected);
        }
    }
}

#[test]
fn restore_to_previous_rolls_back() {
    // Frame 2 is shown with its green patch, then its disposal restores the
    // canvas to the all-red state from before frame 2 was drawn, so frame 3
    // inherits red and the green patch vanishes.
    let data = encode_test_gif(
        6,
        6,
        vec![
            TestFrame {
                pixels: solid(6, 6, RED),
                fw: 6,
                fh: 6,
                left: 0,
                top: 0,
                dispose: gif::DisposalMethod::Keep,
                delay: 1,
            },
            TestFrame {
                pixels: solid(2, 2, GREEN),
                fw: 2,
                fh: 2,
                left: 0,
                top: 0,
                dispose: gif::DisposalMethod::Previous,
                delay: 1,
            },
            TestFrame {
                pixels: solid(1, 1, BLUE),
                fw: 1,
                fh: 1,
                left: 5,
                top: 5,
                dispose: gif::DisposalMethod::Keep,
                delay: 1,
            },
        ],
    );
    let mut p = GifProcessor::new();
    p.process_gif(&data).unwrap();
    let snaps = all_snapshots(&mut p, 3);
    assert_eq!(pixel(&snaps[1], 6, 0, 0), GREEN);
    for y in 0..6 {
        for x in 0..6 {
            let expected = if x == 5 && y == 5 { BLUE } else { RED };
            assert_eq!(pixel(&snaps[2], 6, x, y), expected);
        }
    }
}

#[test]
fn transparent_overlay_roundtrip() {
    // Fully opaque frames re-encode losslessly: compositing an all-zero
    // overlay and decoding the output reproduces the original snapshots.
    let data = encode_test_gif(
        8,
        4,
        vec![
            TestFrame {
                pixels: solid(8, 4, RED),
                fw: 8,
                fh: 4,
                left: 0,
                top: 0,
                dispose: gif::DisposalMethod::Keep,
                delay: 3,
            },
            TestFrame {
                pixels: solid(3, 2, BLUE),
                fw: 3,
                fh: 2,
                left: 2,
                top: 1,
                dispose: gif::DisposalMethod::Keep,
                delay: 4,
            },
        ],
    );
    let mut p = GifProcessor::new();
    p.process_gif(&data).unwrap();
    let originals = all_snapshots(&mut p, 2);
    let overlay = p.blank_overlay();
    assert_eq!(overlay.len(), 8 * 4 * 4);
    assert!(overlay.iter().all(|&b| b == 0));
    let out = p.process_all_frames_with_text_data(&overlay).unwrap();
    let mut q = GifProcessor::new();
    q.process_gif(&out).unwrap();
    let reread = all_snapshots(&mut q, 2);
    assert_eq!(originals, reread);
    assert_eq!(q.get_frame_delay(), 3);
    q.next_frame();
    assert_eq!(q.get_frame_delay(), 4);
}

#[test]
fn composite_replaces_by_alpha() {
    let p = GifProcessor::new();
    let frame = vec![10, 20, 30, 255, 40, 50, 60, 0];
    let text = vec![1, 2, 3, 128, 7, 8, 9, 0];
    let out = p.composite_text_overlay(&frame, &text);
    // First pixel: overlay alpha 128 > 0, all four channels replaced.
    assert_eq!(&out[0..4], &[1, 2, 3, 128]);
    // Second pixel: overlay alpha 0, frame bytes kept unchanged.
    assert_eq!(&out[4..8], &[40, 50, 60, 0]);
}

#[test]
fn composite_through_pipeline() {
    let data = encode_test_gif(
        4,
        4,
        vec![TestFrame {
            pixels: solid(4, 4, RED),
            fw: 4,
            fh: 4,
            left: 0,
            top: 0,
            dispose: gif::DisposalMethod::Keep,
            delay: 7,
        }],
    );
    let mut p = GifProcessor::new();
    p.process_gif(&data).unwrap();
    let mut overlay = solid(4, 4, CLEAR);
    let white = [255, 255, 255, 255];
    overlay[(0 * 4 + 1) * 4..(0 * 4 + 1) * 4 + 4].copy_from_slice(&white);
    let out = p.process_all_frames_with_text_data(&overlay).unwrap();
    let mut q = GifProcessor::new();
    q.process_gif(&out).unwrap();
    let snaps = all_snapshots(&mut q, 1);
    for y in 0..4 {
        for x in 0..4 {
            let expected = if x == 1 && y == 0 { white } else { RED };
            assert_eq!(pixel(&snaps[0], 4, x, y), expected);
        }
    }
    assert_eq!(q.get_frame_delay(), 7);
}

#[test]
fn cursor_wraparound() {
    let data = encode_test_gif(
        2,
        2,
        vec![
            TestFrame {
                pixels: solid(2, 2, RED),
                fw: 2,
                fh: 2,
                left: 0,
                top: 0,
                dispose: gif::DisposalMethod::Keep,
                delay: 11,
            },
            TestFrame {
                pixels: solid(2, 2, GREEN),
                fw: 2,
                fh: 2,
                left: 0,
                top: 0,
                dispose: gif::DisposalMethod::Keep,
                delay: 12,
            },
            TestFrame {
                pixels: solid(2, 2, BLUE),
                fw: 2,
                fh: 2,
                left: 0,
                top: 0,
                dispose: gif::DisposalMethod::Keep,
                delay: 13,
            },
        ],
    );
    let mut p = GifProcessor::new();
    p.process_gif(&data).unwrap();
    assert_eq!(p.get_frame_delay(), 11);
    p.next_frame();
    assert_eq!(p.get_frame_delay(), 12);
    p.next_frame();
    assert_eq!(p.get_frame_delay(), 13);
    p.next_frame();
    assert_eq!(p.get_frame_delay(), 11);
}

#[test]
fn default_delay_when_empty() {
    let p = GifProcessor::new();
    assert_eq!(p.get_frame_delay(), DEFAULT_FRAME_DELAY);
    assert_eq!(p.get_frame_delay(), 100);
}

#[test]
fn empty_input_invalid_state() {
    let mut p = GifProcessor::new();
    let r = p.process_gif(&[]);
    assert!(matches!(r, Err(GifError::InvalidState(_))));
}

#[test]
fn garbage_input_decode_error() {
    let mut p = GifProcessor::new();
    let r = p.process_gif(b"this is not a gif at all");
    assert!(matches!(r, Err(GifError::DecodeError(_))));
}

#[test]
fn failed_process_keeps_prior_state() {
    let data = two_frame_input();
    let mut p = GifProcessor::new();
    p.process_gif(&data).unwrap();
    let before = all_snapshots(&mut p, 2);
    let r = p.process_gif(b"broken");
    assert!(matches!(r, Err(GifError::DecodeError(_))));
    let after = all_snapshots(&mut p, 2);
    assert_eq!(before, after);
    let d = p.get_dimensions();
    assert_eq!((d.width, d.height), (10, 10));
}

#[test]
fn composite_on_unpopulated_fails() {
    let p = GifProcessor::new();
    let r = p.process_all_frames_with_text_data(&[]);
    assert!(matches!(r, Err(GifError::InvalidState(_))));
}

#[test]
fn snapshot_on_unpopulated_fails() {
    let p = GifProcessor::new();
    assert!(matches!(p.snapshot_at_cursor(), Err(GifError::InvalidState(_))));
}

#[test]
fn advance_on_empty_is_noop() {
    let mut p = GifProcessor::new();
    p.next_frame();
    assert_eq!(p.get_frame_delay(), DEFAULT_FRAME_DELAY);
    assert!(matches!(p.snapshot_at_cursor(), Err(GifError::InvalidState(_))));
}
