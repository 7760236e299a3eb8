//! Column-scan encoding for the LED driver: four shift registers fed in
//! parallel, two selecting one column (one-hot) and two carrying that
//! column's sixteen rows.

use vstd::prelude::*;
use crate::frame::Frame;

verus! {

/// Bytes sent per column.
pub const COL_BYTES: usize = 8;

/// Whether bit `i` of `w` is set.
pub open spec fn bit16(w: u16, i: u16) -> bool {
    (w >> i) & 1u16 == 1u16
}

/// The columns of a frame as row masks: bit `row` of column `col` is
/// pixel (`col`, `row`).
pub open spec fn is_transpose(frame: Seq<u16>, cols: Seq<u16>) -> bool {
    &&& cols.len() == 16
    &&& forall|col: u16, row: u16|
        col < 16 && row < 16 ==> bit16(#[trigger] cols[col as int], row) == bit16(#[trigger] frame[row as int], col)
}

pub(crate) proof fn lemma_set_bit(x: u16, k: u16, i: u16)
    requires
        k < 16,
        i < 16,
    ensures
        bit16(x | (1u16 << k), i) == (bit16(x, i) || i == k),
{
    assert(((x | (1u16 << k)) >> i) & 1u16 == 1u16 <==> (((x >> i) & 1u16 == 1u16) || i == k))
        by (bit_vector)
        requires
            k < 16,
            i < 16,
    ;
}

pub(crate) proof fn lemma_zero_bits(i: u16)
    ensures
        !bit16(0u16, i),
{
    assert((0u16 >> i) & 1u16 != 1u16) by (bit_vector);
}

proof fn lemma_bits_determine_word(x: u16, y: u16)
    requires
        forall|i: u16| i < 16 ==> bit16(x, i) == bit16(y, i),
    ensures
        x == y,
{
    assert(bit16(x, 0) == bit16(y, 0));
    assert(bit16(x, 1) == bit16(y, 1));
    assert(bit16(x, 2) == bit16(y, 2));
    assert(bit16(x, 3) == bit16(y, 3));
    assert(bit16(x, 4) == bit16(y, 4));
    assert(bit16(x, 5) == bit16(y, 5));
    assert(bit16(x, 6) == bit16(y, 6));
    assert(bit16(x, 7) == bit16(y, 7));
    assert(bit16(x, 8) == bit16(y, 8));
    assert(bit16(x, 9) == bit16(y, 9));
    assert(bit16(x, 10) == bit16(y, 10));
    assert(bit16(x, 11) == bit16(y, 11));
    assert(bit16(x, 12) == bit16(y, 12));
    assert(bit16(x, 13) == bit16(y, 13));
    assert(bit16(x, 14) == bit16(y, 14));
    assert(bit16(x, 15) == bit16(y, 15));
    assert(x == y) by (bit_vector)
        requires
            ((x >> 0u16) & 1u16 == 1u16) == ((y >> 0u16) & 1u16 == 1u16),
            ((x >> 1u16) & 1u16 == 1u16) == ((y >> 1u16) & 1u16 == 1u16),
            ((x >> 2u16) & 1u16 == 1u16) == ((y >> 2u16) & 1u16 == 1u16),
            ((x >> 3u16) & 1u16 == 1u16) == ((y >> 3u16) & 1u16 == 1u16),
            ((x >> 4u16) & 1u16 == 1u16) == ((y >> 4u16) & 1u16 == 1u16),
            ((x >> 5u16) & 1u16 == 1u16) == ((y >> 5u16) & 1u16 == 1u16),
            ((x >> 6u16) & 1u16 == 1u16) == ((y >> 6u16) & 1u16 == 1u16),
            ((x >> 7u16) & 1u16 == 1u16) == ((y >> 7u16) & 1u16 == 1u16),
            ((x >> 8u16) & 1u16 == 1u16) == ((y >> 8u16) & 1u16 == 1u16),
            ((x >> 9u16) & 1u16 == 1u16) == ((y >> 9u16) & 1u16 == 1u16),
            ((x >> 10u16) & 1u16 == 1u16) == ((y >> 10u16) & 1u16 == 1u16),
            ((x >> 11u16) & 1u16 == 1u16) == ((y >> 11u16) & 1u16 == 1u16),
            ((x >> 12u16) & 1u16 == 1u16) == ((y >> 12u16) & 1u16 == 1u16),
            ((x >> 13u16) & 1u16 == 1u16) == ((y >> 13u16) & 1u16 == 1u16),
            ((x >> 14u16) & 1u16 == 1u16) == ((y >> 14u16) & 1u16 == 1u16),
            ((x >> 15u16) & 1u16 == 1u16) == ((y >> 15u16) & 1u16 == 1u16),
    ;
}

/// Transposing twice gives the frame back: the column masks hold every
/// pixel of the frame.
pub proof fn lemma_transpose_twice(frame: Seq<u16>, cols: Seq<u16>, back: Seq<u16>)
    requires
        frame.len() == 16,
        is_transpose(frame, cols),
        is_transpose(cols, back),
    ensures
        back == frame,
{
    assert forall|r: int| 0 <= r < 16 implies back[r] == frame[r] by {
        let rr = r as u16;
        assert forall|c: u16| c < 16 implies bit16(back[r], c) == bit16(frame[r], c) by {
            assert(bit16(back[rr as int], c) == bit16(cols[c as int], rr));
            assert(bit16(cols[c as int], rr) == bit16(frame[rr as int], c));
        }
        lemma_bits_determine_word(back[r], frame[r]);
    }
    assert(back =~= frame);
}

/// The row mask of every column of a frame.
pub fn transpose_columns(frame: &Frame) -> (cols: [u16; 16])
    ensures
        is_transpose(frame@, cols@),
{
    let mut cols = [0u16; 16];
    let mut col: u16 = 0;
    while col < 16
        invariant
            0 <= col <= 16,
            forall|c: u16, r: u16| c < col && r < 16 ==> bit16(#[trigger] cols@[c as int], r) == bit16(#[trigger] frame@[r as int], c),
        decreases 16 - col,
    {
        let mut rows: u16 = 0;
        let mut row: u16 = 0;
        proof {
            assert forall|r: u16| r < 16 implies !bit16(rows, r) by {
                lemma_zero_bits(r);
            }
        }
        while row < 16
            invariant
                0 <= row <= 16,
                col < 16,
                forall|r: u16| r < row ==> bit16(rows, r) == bit16(#[trigger] frame@[r as int], col),
                forall|r: u16| row <= r < 16 ==> !#[trigger] bit16(rows, r),
            decreases 16 - row,
        {
            let v = frame[row as usize];
            let ghost before = rows;
            proof {
                assert(((v >> col) & 1u16 != 0u16) == ((v >> col) & 1u16 == 1u16)) by (bit_vector);
            }
            if (v >> col) & 1 != 0 {
                rows = rows | (1u16 << row);
            }
            proof {
                assert forall|r: u16| r < 16 implies bit16(rows, r) == (bit16(before, r) || (r == row && bit16(v, col))) by {
                    if bit16(v, col) {
                        lemma_set_bit(before, row, r);
                    }
                }
                assert forall|r: u16| r < row + 1 implies bit16(rows, r) == bit16(#[trigger] frame@[r as int], col) by {
                    if r < row {
                        assert(bit16(before, r) == bit16(frame@[r as int], col));
                    }
                }
                assert forall|r: u16| row + 1 <= r < 16 implies !#[trigger] bit16(rows, r) by {
                    assert(!bit16(before, r));
                }
            }
            row += 1;
        }
        cols[col as usize] = rows;
        col += 1;
    }
    cols
}

/// The 4-bit word shifted out on clock cycle `cycle` (0..8) for column
/// `col` carrying rows `rows`: bit 0 selects column `cycle`, bit 1 column
/// `cycle + 8`, bit 2 is row `cycle`, bit 3 row `cycle + 8`.
pub open spec fn column_nibble(col: u16, rows: u16, cycle: u16) -> u8 {
    ((if bit16(rows, (cycle + 8) as u16) { 8u8 } else { 0u8 }) + (if bit16(rows, cycle) { 4u8 } else { 0u8 }) + (
    if col == cycle + 8 { 2u8 } else { 0u8 }) + (if col == cycle { 1u8 } else { 0u8 })) as u8
}

/// Byte `k` sent for a column: cycles `2k` (high nibble) and `2k + 1` (low
/// nibble) for the first four bytes, zero after them.
pub open spec fn column_byte(col: u16, rows: u16, k: int) -> u8 {
    if k < 4 {
        (column_nibble(col, rows, (2 * k) as u16) * 16 + column_nibble(col, rows, (2 * k + 1) as u16)) as u8
    } else {
        0u8
    }
}

fn nibble(col: u16, rows: u16, cycle: u16) -> (n: u8)
    requires
        col < 16,
        cycle < 8,
    ensures
        n == column_nibble(col, rows, cycle),
        n < 16,
{
    let col_sel: u16 = 1u16 << col;
    let col_lo = col_sel as u8;
    let col_hi = (col_sel >> 8u16) as u8;
    let row_lo = rows as u8;
    let row_hi = (rows >> 8u16) as u8;
    let c_lo = (col_lo >> cycle) & 1;
    let c_hi = (col_hi >> cycle) & 1;
    let r_lo = (row_lo >> cycle) & 1;
    let r_hi = (row_hi >> cycle) & 1;
    let n = (r_hi << 3u8) | (r_lo << 2u8) | (c_hi << 1u8) | c_lo;
    assert(n == ((if (rows >> ((cycle + 8) as u16)) & 1u16 == 1u16 { 8u8 } else { 0u8 }) + (if (rows >> cycle) & 1u16 == 1u16 { 4u8 } else { 0u8 }) + (
    if col == cycle + 8 { 2u8 } else { 0u8 }) + (if col == cycle { 1u8 } else { 0u8 })) as u8 && n < 16) by (bit_vector)
        requires
            col < 16,
            cycle < 8,
            col_sel == 1u16 << col,
            col_lo == col_sel as u8,
            col_hi == (col_sel >> 8u16) as u8,
            row_lo == rows as u8,
            row_hi == (rows >> 8u16) as u8,
            c_lo == (col_lo >> cycle) & 1,
            c_hi == (col_hi >> cycle) & 1,
            r_lo == (row_lo >> cycle) & 1,
            r_hi == (row_hi >> cycle) & 1,
            n == (r_hi << 3u8) | (r_lo << 2u8) | (c_hi << 1u8) | c_lo,
    ;
    n
}

/// The bytes sent to select column `col` and show its rows `rows`.
pub fn pack_column(col: u16, rows: u16) -> (packed: [u8; 8])
    requires
        col < 16,
    ensures
        forall|k: int| 0 <= k < 8 ==> #[trigger] packed@[k] == column_byte(col, rows, k),
{
    let mut packed = [0u8; 8];
    let mut cycle: u16 = 0;
    while cycle < 8
        invariant
            0 <= cycle <= 8,
            col < 16,
            forall|k: int| 0 <= k < cycle / 2 ==> #[trigger] packed@[k] == column_byte(col, rows, k),
            cycle % 2 == 1 ==> packed@[(cycle / 2) as int] == column_nibble(col, rows, (cycle - 1) as u16) * 16,
            forall|k: int| (cycle + 1) / 2 <= k < 8 ==> #[trigger] packed@[k] == 0,
        decreases 8 - cycle,
    {
        let n = nibble(col, rows, cycle);
        let idx = (cycle / 2) as usize;
        if cycle % 2 == 0 {
            assert((n << 4u8) == n * 16) by (bit_vector)
                requires
                    n < 16,
            ;
            packed[idx] = n << 4u8;
        } else {
            let hi = packed[idx];
            assert(hi | n == hi + n) by (bit_vector)
                requires
                    n < 16,
                    hi % 16 == 0,
            ;
            packed[idx] = hi | n;
        }
        cycle += 1;
    }
    packed
}

} // verus!
