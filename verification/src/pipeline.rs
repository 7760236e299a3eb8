//! Baking pipeline: frames to animations, to raw lookup tables, and
//! rendered images down to 16×16 frames.

use vstd::prelude::*;
use crate::frame::{Frame, layout_byte};
use crate::animation::changed_keyframes;
use crate::wire::{bake_animation, bake_frames, baked_wire, keyframes_wire, postcard_encoding};
use crate::scan::{bit16, lemma_set_bit, lemma_zero_bits};

verus! {

/// Revolutions of frames → a postcard-encoded animation, one page each.
pub fn frames_to_animation(pages: &[Vec<Frame>]) -> (bytes: Vec<u8>)
    ensures
        bytes@ == postcard_encoding(baked_wire(pages@.map_values(|v: Vec<Frame>| v@))),
{
    bake_animation(pages)
}

/// One revolution of frames → a one-page postcard-encoded animation.
pub fn frames_to_postcard(frames: &[Frame]) -> (bytes: Vec<u8>)
    ensures
        bytes@ == postcard_encoding(seq![keyframes_wire(changed_keyframes(frames@))]),
{
    bake_frames(frames)
}

/// Every frame's 32-byte layout, one after the other.
pub open spec fn lut_bytes(frames: Seq<Frame>) -> Seq<u8> {
    Seq::new(32 * frames.len(), |k: int| layout_byte(frames[k / 32]@, k % 32))
}

/// The raw lookup table of a revolution: 32 bytes per frame, rows
/// little-endian, frames in order.
pub fn frames_to_lut_bytes(frames: &[Frame]) -> (bytes: Vec<u8>)
    requires
        frames@.len() * 32 <= isize::MAX,
    ensures
        bytes@ == lut_bytes(frames@),
{
    let mut bytes: Vec<u8> = Vec::new();
    let mut step: usize = 0;
    while step < frames.len()
        invariant
            0 <= step <= frames@.len(),
            frames@.len() * 32 <= isize::MAX,
            bytes@ == lut_bytes(frames@).subrange(0, 32 * step as int),
        decreases frames@.len() - step,
    {
        let frame = frames[step];
        let mut row: usize = 0;
        while row < 16
            invariant
                0 <= step < frames@.len(),
                frames@.len() * 32 <= isize::MAX,
                frame == frames@[step as int],
                0 <= row <= 16,
                bytes@ == lut_bytes(frames@).subrange(0, 32 * step + 2 * row),
            decreases 16 - row,
        {
            let bits = frame[row];
            let lo = bits as u8;
            let hi = (bits >> 8u16) as u8;
            proof {
                assert(lo == (bits % 256) as u8) by (bit_vector)
                    requires
                        lo == bits as u8,
                ;
                assert(hi == (bits / 256) as u8) by (bit_vector)
                    requires
                        hi == (bits >> 8u16) as u8,
                ;
            }
            bytes.push(lo);
            bytes.push(hi);
            proof {
                let all = lut_bytes(frames@);
                let k0 = 32 * step + 2 * row;
                assert(all[k0] == lo);
                assert(all[k0 + 1] == hi);
                assert(bytes@ =~= all.subrange(0, k0 + 2));
            }
            row += 1;
        }
        step += 1;
    }
    assert(lut_bytes(frames@).subrange(0, 32 * frames@.len() as int) =~= lut_bytes(frames@));
    bytes
}

/// Perceived brightness of an RGB pixel (integer BT.601 weights).
pub open spec fn luma(r: u8, g: u8, b: u8) -> int {
    (r * 299 + g * 587 + b * 114) / 1000
}

/// Byte offset of the RGBA pixel sampled for LED (`col`, `row`): the centre
/// of its `width / 16` × `height / 16` cell.
pub open spec fn sample_index(width: u32, height: u32, row: int, col: int) -> int {
    let bw = width / 16;
    let bh = height / 16;
    let cx = col * bw + bw / 2;
    let cy = row * bh + bh / 2;
    (cy * width + cx) * 4
}

/// Whether LED (`col`, `row`) is lit: its sampled pixel lies in the buffer
/// and is brighter than the threshold.
pub open spec fn sample_lit(pixels: Seq<u8>, width: u32, height: u32, threshold: u8, row: int, col: int) -> bool {
    let idx = sample_index(width, height, row, col);
    idx + 3 < pixels.len() && luma(pixels[idx], pixels[idx + 1], pixels[idx + 2]) > threshold
}

/// Brightness is BT.601 luma over the red, green and blue bytes: each
/// channel alone contributes 299, 587 and 114 thousandths of its value,
/// and a grey pixel is as bright as its level.
pub proof fn lemma_luma_channel_weights(v: u8)
    ensures
        luma(v, 0, 0) == (299 * v) / 1000,
        luma(0, v, 0) == (587 * v) / 1000,
        luma(0, 0, v) == (114 * v) / 1000,
        luma(v, v, v) == v,
        luma(v, 0, 0) >= luma(0, 0, v),
{
}

/// An LED is lit exactly when the pixel sampled for it lies in the buffer
/// and `(299 R + 587 G + 114 B) / 1000` exceeds the threshold, with R, G
/// and B bytes 0, 1 and 2 of that RGBA pixel.
pub proof fn lemma_downsample_lit_by_luma(
    pixels: Seq<u8>,
    width: u32,
    height: u32,
    threshold: u8,
    row: int,
    col: int,
)
    ensures
        sample_lit(pixels, width, height, threshold, row, col) == ({
            let idx = sample_index(width, height, row, col);
            idx + 3 < pixels.len() && (299 * pixels[idx] + 587 * pixels[idx + 1] + 114 * pixels[idx
                + 2]) / 1000 > threshold
        }),
{
}

/// Downsamples an RGBA image to a 16×16 frame by sampling the centre pixel
/// of each cell and thresholding its brightness.
pub fn downsample_to_frame(pixels: &[u8], width: u32, height: u32, threshold: u8) -> (frame: Frame)
    requires
        forall|row: int, col: int| 0 <= row < 16 && 0 <= col < 16
            ==> #[trigger] sample_index(width, height, row, col) + 3 <= usize::MAX,
    ensures
        forall|row: u16, col: u16| row < 16 && col < 16 ==> #[trigger] bit16(frame@[row as int], col)
            == sample_lit(pixels@, width, height, threshold, row as int, col as int),
{
    let mut frame: Frame = [0u16; 16];
    let bw = width / 16;
    let bh = height / 16;
    let mut row: u32 = 0;
    while row < 16
        invariant
            0 <= row <= 16,
            bw == width / 16,
            bh == height / 16,
            forall|row: int, col: int| 0 <= row < 16 && 0 <= col < 16
                ==> #[trigger] sample_index(width, height, row, col) + 3 <= usize::MAX,
            forall|r: u16, c: u16| r < row && c < 16 ==> #[trigger] bit16(frame@[r as int], c)
                == sample_lit(pixels@, width, height, threshold, r as int, c as int),
        decreases 16 - row,
    {
        let mut bits: u16 = 0;
        proof {
            assert forall|c: u16| c < 16 implies !bit16(bits, c) by {
                lemma_zero_bits(c);
            }
        }
        let mut col: u32 = 0;
        while col < 16
            invariant
                0 <= row < 16,
                0 <= col <= 16,
                bw == width / 16,
                bh == height / 16,
                forall|row: int, col: int| 0 <= row < 16 && 0 <= col < 16
                    ==> #[trigger] sample_index(width, height, row, col) + 3 <= usize::MAX,
                forall|c: u16| c < col ==> #[trigger] bit16(bits, c)
                    == sample_lit(pixels@, width, height, threshold, row as int, c as int),
                forall|c: u16| col <= c < 16 ==> !#[trigger] bit16(bits, c),
            decreases 16 - col,
        {
            proof {
                assert(col * bw + bw / 2 <= width) by (nonlinear_arith)
                    requires
                        col < 16,
                        bw == width / 16,
                ;
                assert(row * bh + bh / 2 <= height) by (nonlinear_arith)
                    requires
                        row < 16,
                        bh == height / 16,
                ;
            }
            let cx = (col * bw + bw / 2) as usize;
            let cy = (row * bh + bh / 2) as usize;
            let ghost target = sample_index(width, height, row as int, col as int);
            assert(target + 3 <= usize::MAX);
            proof {
                assert(0 <= cy * width <= cy * width + cx) by (nonlinear_arith)
                    requires
                        cy >= 0,
                        width >= 0,
                        cx >= 0,
                ;
            }
            let idx = (cy * (width as usize) + cx) * 4;
            let lit = if idx + 3 < pixels.len() {
                let luma_value = (pixels[idx] as u32 * 299 + pixels[idx + 1] as u32 * 587 + pixels[idx
                    + 2] as u32 * 114) / 1000;
                luma_value > threshold as u32
            } else {
                false
            };
            let ghost before = bits;
            if lit {
                bits = bits | (1u16 << (col as u16));
            }
            proof {
                assert forall|c: u16| c < 16 implies bit16(bits, c) == (bit16(before, c) || (c == col && lit)) by {
                    if lit {
                        lemma_set_bit(before, col as u16, c);
                    }
                }
                assert forall|c: u16| c < col + 1 implies #[trigger] bit16(bits, c)
                    == sample_lit(pixels@, width, height, threshold, row as int, c as int) by {
                    if c < col {
                        assert(bit16(before, c) == sample_lit(pixels@, width, height, threshold, row as int, c as int));
                    }
                }
                assert forall|c: u16| col + 1 <= c < 16 implies !#[trigger] bit16(bits, c) by {
                    assert(!bit16(before, c));
                }
            }
            col += 1;
        }
        frame[row as usize] = bits;
        row += 1;
    }
    frame
}

} // verus!
