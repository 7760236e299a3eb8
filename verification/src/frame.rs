//! 16×16 monochrome frames and their 32-byte little-endian layout.

use vstd::prelude::*;

verus! {

/// A 16×16 monochrome frame: row `y` is `frame[y]`, bit `j` of a row is
/// column `j` (LSB = column 0).
pub type Frame = [u16; 16];

/// Raw 32-byte view of a frame, row by row, each row little-endian.
pub type FrameBytes = [u8; 32];

/// Low byte of a 16-bit word.
pub open spec fn low_byte(w: u16) -> u8 {
    (w % 256) as u8
}

/// High byte of a 16-bit word.
pub open spec fn high_byte(w: u16) -> u8 {
    (w / 256) as u8
}

/// The 16-bit word whose little-endian bytes are `lo`, `hi`.
pub open spec fn le_word(lo: u8, hi: u8) -> u16 {
    (lo + 256 * hi) as u16
}

/// Byte `k` of the little-endian layout of the rows `rows`.
pub open spec fn layout_byte(rows: Seq<u16>, k: int) -> u8 {
    if k % 2 == 0 {
        low_byte(rows[k / 2])
    } else {
        high_byte(rows[k / 2])
    }
}

/// The little-endian byte layout of a sequence of rows: two bytes per row.
pub open spec fn rows_to_bytes(rows: Seq<u16>) -> Seq<u8> {
    Seq::new(2 * rows.len(), |k: int| layout_byte(rows, k))
}

/// The rows encoded by a little-endian byte sequence of even length.
pub open spec fn bytes_to_rows(bytes: Seq<u8>) -> Seq<u16> {
    Seq::new(bytes.len() / 2, |i: int| le_word(bytes[2 * i], bytes[2 * i + 1]))
}

proof fn lemma_split_word(w: u16)
    ensures
        w as u8 == low_byte(w),
        (w >> 8u16) as u8 == high_byte(w),
        le_word(low_byte(w), high_byte(w)) == w,
{
    assert(w as u8 == (w % 256) as u8) by (bit_vector);
    assert((w >> 8u16) as u8 == (w / 256) as u8) by (bit_vector);
}

proof fn lemma_join_bytes(lo: u8, hi: u8)
    ensures
        lo as u16 | ((hi as u16) << 8u16) == le_word(lo, hi),
        low_byte(le_word(lo, hi)) == lo,
        high_byte(le_word(lo, hi)) == hi,
{
    assert(lo as u16 | ((hi as u16) << 8u16) == (lo + 256 * hi) as u16) by (bit_vector);
    assert(((lo + 256 * hi) as u16 % 256) as u8 == lo) by (bit_vector);
    assert(((lo + 256 * hi) as u16 / 256) as u8 == hi) by (bit_vector);
}

/// Converts a frame to its raw little-endian byte layout.
pub fn frame_to_bytes(frame: &Frame) -> (bytes: FrameBytes)
    ensures
        bytes@ == rows_to_bytes(frame@),
{
    let mut bytes = [0u8; 32];
    let mut i: usize = 0;
    while i < 16
        invariant
            0 <= i <= 16,
            forall|k: int| 0 <= k < 2 * i ==> bytes@[k] == layout_byte(frame@, k),
        decreases 16 - i,
    {
        let row = frame[i];
        proof {
            lemma_split_word(row);
        }
        bytes[i * 2] = row as u8;
        bytes[i * 2 + 1] = (row >> 8) as u8;
        i += 1;
    }
    assert(bytes@ =~= rows_to_bytes(frame@));
    bytes
}

/// Converts a raw little-endian byte layout back into a frame.
pub fn bytes_to_frame(bytes: &FrameBytes) -> (frame: Frame)
    ensures
        frame@ == bytes_to_rows(bytes@),
{
    let mut frame = [0u16; 16];
    let mut i: usize = 0;
    while i < 16
        invariant
            0 <= i <= 16,
            forall|k: int| 0 <= k < i ==> frame@[k] == le_word(bytes@[2 * k], bytes@[2 * k + 1]),
        decreases 16 - i,
    {
        let lo = bytes[i * 2];
        let hi = bytes[i * 2 + 1];
        proof {
            lemma_join_bytes(lo, hi);
        }
        frame[i] = lo as u16 | ((hi as u16) << 8);
        i += 1;
    }
    assert(frame@ =~= bytes_to_rows(bytes@));
    frame
}

/// Decoding the byte layout of a frame gives the frame back, and encoding
/// the frame read from 32 bytes gives those bytes back.
pub proof fn lemma_frame_bytes_roundtrip(rows: Seq<u16>, bytes: Seq<u8>)
    requires
        bytes.len() % 2 == 0,
    ensures
        bytes_to_rows(rows_to_bytes(rows)) == rows,
        rows_to_bytes(bytes_to_rows(bytes)) == bytes,
{
    assert forall|i: int| 0 <= i < rows.len() implies #[trigger] bytes_to_rows(rows_to_bytes(rows))[i]
        == rows[i] by {
        lemma_split_word(rows[i]);
    }
    assert(bytes_to_rows(rows_to_bytes(rows)) =~= rows);
    assert forall|k: int| 0 <= k < bytes.len() implies #[trigger] rows_to_bytes(bytes_to_rows(bytes))[k]
        == bytes[k] by {
        let j = k / 2;
        lemma_join_bytes(bytes[2 * j], bytes[2 * j + 1]);
    }
    assert(rows_to_bytes(bytes_to_rows(bytes)) =~= bytes);
}

} // verus!
