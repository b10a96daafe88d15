//! The printable-ASCII rendition of raw bytes.

use vstd::prelude::*;

verus! {

/// The placeholder shown for a byte outside the printable range.
pub open spec fn placeholder() -> u8 {
    0x2e
}

/// A byte is printable when it lies in the 95-character printable ASCII
/// range, space (0x20) through tilde (0x7e) inclusive.
pub open spec fn is_printable(b: u8) -> bool {
    0x20 <= b <= 0x7e
}

/// A printable byte stands for itself; any other byte (control characters,
/// DEL, and everything at or above 0x80) becomes the placeholder `'.'`.
pub open spec fn filter_spec(b: u8) -> u8 {
    if is_printable(b) {
        b
    } else {
        placeholder()
    }
}

/// The ASCII rendition of a whole byte sequence, one output byte per input
/// byte.
pub open spec fn ascii_of(s: Seq<u8>) -> Seq<u8> {
    s.map_values(|b: u8| filter_spec(b))
}

/// Map one byte to its ASCII rendition.
pub fn filter(b: u8) -> (r: u8)
    ensures
        r == filter_spec(b),
{
    if 0x20 <= b && b <= 0x7e {
        b
    } else {
        0x2e
    }
}

/// Append the ASCII rendition of `bytes` to `out`.
pub fn render_ascii(out: &mut Vec<u8>, bytes: &[u8])
    ensures
        final(out)@ == old(out)@ + ascii_of(bytes@),
{
    let n: usize = bytes.len();
    let mut j: usize = 0;
    while j < n
        invariant
            n == bytes@.len(),
            j <= n,
            out@ == old(out)@ + ascii_of(bytes@.take(j as int)),
        decreases n - j,
    {
        out.push(filter(bytes[j]));
        j = j + 1;
        proof {
            assert(bytes@.take(j as int) =~= bytes@.take(j - 1).push(bytes@[j - 1]));
            assert(out@ =~= old(out)@ + ascii_of(bytes@.take(j as int)));
        }
    }
    proof {
        assert(bytes@.take(n as int) =~= bytes@);
    }
}

} // verus!
