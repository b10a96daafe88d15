//! Rendering one row as a fixed-width dump line.

use vstd::prelude::*;

use crate::ascii::ascii_of;
use crate::ascii::render_ascii;
use crate::encode::byte_to_arr;
use crate::encode::hex;
use crate::encode::hex8;
use crate::encode::hex_pair;

verus! {

/// One cell of the hex area: the hex pair of `s[j]` followed by a space when
/// index `j` holds a valid byte (`j < count`), and three spaces otherwise,
/// so that short rows keep the column alignment.
pub open spec fn hex_cell(s: Seq<u8>, count: int, j: int) -> Seq<u8> {
    if j < count {
        hex_pair(s[j]) + seq![0x20u8]
    } else {
        seq![0x20u8, 0x20u8, 0x20u8]
    }
}

/// The hex-area cells for indices `lo..hi`, concatenated in order.
pub open spec fn hex_cells(s: Seq<u8>, count: int, lo: int, hi: int) -> Seq<u8>
    decreases hi - lo,
{
    if lo >= hi {
        Seq::empty()
    } else {
        hex_cell(s, count, lo) + hex_cells(s, count, lo + 1, hi)
    }
}

/// Extending the cell range by one appends one cell.
pub proof fn lemma_hex_cells_snoc(s: Seq<u8>, count: int, lo: int, j: int)
    requires
        lo <= j,
    ensures
        hex_cells(s, count, lo, j + 1) == hex_cells(s, count, lo, j) + hex_cell(s, count, j),
    decreases j - lo,
{
    if lo == j {
        assert(hex_cells(s, count, lo + 1, j + 1) =~= Seq::<u8>::empty());
        assert(hex_cells(s, count, lo, j) =~= Seq::<u8>::empty());
        assert(hex_cells(s, count, lo, j + 1) =~= hex_cells(s, count, lo, j) + hex_cell(
            s,
            count,
            j,
        ));
    } else {
        lemma_hex_cells_snoc(s, count, lo + 1, j);
        assert(hex_cells(s, count, lo, j + 1) =~= hex_cells(s, count, lo, j) + hex_cell(
            s,
            count,
            j,
        ));
    }
}

/// Every cell is three bytes wide, so the hex area has a fixed width.
pub proof fn lemma_hex_cells_len(s: Seq<u8>, count: int, lo: int, hi: int)
    requires
        lo <= hi,
    ensures
        hex_cells(s, count, lo, hi).len() == 3 * (hi - lo),
    decreases hi - lo,
{
    if lo < hi {
        lemma_hex_cells_len(s, count, lo + 1, hi);
    }
}

/// The exact byte sequence of the dump line for one row.
///
/// `row` holds only the row's valid bytes (at most 16), `offset` the row's
/// position in the stream. The line is the 8-digit offset, two spaces, the
/// first eight hex cells, one extra separator space, the remaining eight hex
/// cells, a space and `'|'`, the ASCII rendition of the valid bytes (no
/// padding: the ASCII field is only as wide as the valid data), then `'|'`
/// and a newline. A full 16-byte row yields exactly 79 bytes.
pub open spec fn line_spec(row: Seq<u8>, offset: nat) -> Seq<u8> {
    hex8(offset) + seq![0x20u8, 0x20u8] + hex_cells(row, row.len() as int, 0, 8) + seq![0x20u8]
        + hex_cells(row, row.len() as int, 8, 16) + seq![0x20u8, 0x7cu8] + ascii_of(row) + seq![
        0x7cu8,
        0x0au8,
    ]
}

/// A dump line is 63 bytes of fixed framing plus one ASCII byte per valid
/// row byte: the ASCII field is exactly as wide as the valid data, and a
/// full 16-byte row renders as exactly 79 bytes including the newline.
pub proof fn lemma_line_spec_len(row: Seq<u8>, offset: nat)
    ensures
        line_spec(row, offset).len() == 63 + row.len(),
        ascii_of(row).len() == row.len(),
{
    lemma_hex_cells_len(row, row.len() as int, 0, 8);
    lemma_hex_cells_len(row, row.len() as int, 8, 16);
}

/// Append the hex cells for indices `lo..hi` of `bytes` to `out`, treating
/// the first `count` indices as valid bytes and the rest as padding.
pub fn render_bytes(out: &mut Vec<u8>, bytes: &[u8], lo: usize, hi: usize, count: usize)
    requires
        lo <= hi,
        count <= bytes@.len(),
    ensures
        final(out)@ == old(out)@ + hex_cells(bytes@, count as int, lo as int, hi as int),
{
    let mut j: usize = lo;
    while j < hi
        invariant
            lo <= j <= hi,
            count <= bytes@.len(),
            out@ == old(out)@ + hex_cells(bytes@, count as int, lo as int, j as int),
        decreases hi - j,
    {
        if j < count {
            let pair = byte_to_arr(bytes[j]);
            out.push(pair[0]);
            out.push(pair[1]);
            out.push(0x20);
        } else {
            out.push(0x20);
            out.push(0x20);
            out.push(0x20);
        }
        proof {
            lemma_hex_cells_snoc(bytes@, count as int, lo as int, j as int);
            assert(out@ =~= old(out)@ + hex_cells(
                bytes@,
                count as int,
                lo as int,
                j as int + 1,
            ));
        }
        j = j + 1;
    }
}

/// Append the whole dump line for one row to `out`. `row` holds only the
/// row's valid bytes.
pub fn render_line(out: &mut Vec<u8>, row: &[u8], offset: usize)
    requires
        row@.len() <= 16,
    ensures
        final(out)@ == old(out)@ + line_spec(row@, offset as nat),
{
    let count: usize = row.len();
    hex(out, offset);
    out.push(0x20);
    out.push(0x20);
    render_bytes(out, row, 0, 8, count);
    out.push(0x20);
    render_bytes(out, row, 8, 16, count);
    out.push(0x20);
    out.push(0x7c);
    render_ascii(out, row);
    out.push(0x7c);
    out.push(0x0a);
    proof {
        assert(out@ =~= old(out)@ + line_spec(row@, offset as nat));
    }
}

} // verus!
