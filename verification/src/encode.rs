//! Lowercase hexadecimal encoding of bytes and offsets.

use vstd::prelude::*;

verus! {

/// The lowercase hexadecimal digit for a nibble value.
pub open spec fn hex_digit(d: nat) -> u8 {
    if d < 10 {
        (0x30 + d) as u8
    } else {
        (0x57 + d) as u8
    }
}

/// The two-digit lowercase hexadecimal representation of a byte:
/// high nibble first, then low nibble.
pub open spec fn hex_pair(b: u8) -> Seq<u8> {
    seq![hex_digit((b / 16) as nat), hex_digit((b % 16) as nat)]
}

/// The 8-digit lowercase hexadecimal representation of an offset, most
/// significant nibble first, zero-padded. Offsets are taken modulo 2^32:
/// each digit reads one nibble of the low 32 bits.
pub open spec fn hex8(n: nat) -> Seq<u8> {
    seq![
        hex_digit((n / 0x10000000) % 16),
        hex_digit((n / 0x1000000) % 16),
        hex_digit((n / 0x100000) % 16),
        hex_digit((n / 0x10000) % 16),
        hex_digit((n / 0x1000) % 16),
        hex_digit((n / 0x100) % 16),
        hex_digit((n / 0x10) % 16),
        hex_digit(n % 16),
    ]
}

/// One nibble to its lowercase hexadecimal digit.
fn hex_digit_byte(d: u8) -> (r: u8)
    requires
        d < 16,
    ensures
        r == hex_digit(d as nat),
{
    if d < 10 {
        0x30 + d
    } else {
        0x57 + d
    }
}

/// The two-character lowercase hexadecimal representation of one byte.
pub fn byte_to_arr(b: u8) -> (r: [u8; 2])
    ensures
        r@ == hex_pair(b),
{
    let r = [hex_digit_byte(b / 16), hex_digit_byte(b % 16)];
    proof {
        assert(r@ =~= hex_pair(b));
    }
    r
}

/// Append the 8-character lowercase hexadecimal representation of `num`
/// (modulo 2^32) to `out`, most significant nibble first.
pub fn hex(out: &mut Vec<u8>, num: usize)
    ensures
        final(out)@ == old(out)@ + hex8(num as nat),
{
    out.push(hex_digit_byte(((num / 0x10000000) % 16) as u8));
    out.push(hex_digit_byte(((num / 0x1000000) % 16) as u8));
    out.push(hex_digit_byte(((num / 0x100000) % 16) as u8));
    out.push(hex_digit_byte(((num / 0x10000) % 16) as u8));
    out.push(hex_digit_byte(((num / 0x1000) % 16) as u8));
    out.push(hex_digit_byte(((num / 0x100) % 16) as u8));
    out.push(hex_digit_byte(((num / 0x10) % 16) as u8));
    out.push(hex_digit_byte((num % 16) as u8));
    proof {
        assert(out@ =~= old(out)@ + hex8(num as nat));
    }
}

} // verus!
