//! The stream driver: skip, length bounds, squeeze detection, and the final
//! offset line.

use vstd::prelude::*;

use crate::encode::hex;
use crate::encode::hex8;
use crate::row::line_spec;
use crate::row::render_line;
use crate::squeeze::squeeze_decide;
use crate::squeeze::squeeze_step;
use crate::squeeze::SqueezeState;

verus! {

/// The marker line written once per squeeze run: a single `'*'` and a
/// newline.
pub open spec fn marker_line() -> Seq<u8> {
    seq![0x2au8, 0x0au8]
}

/// The closing line of every dump: the total interpreted offset as 8 hex
/// digits and a newline.
pub open spec fn final_line(offset: nat) -> Seq<u8> {
    hex8(offset) + seq![0x0au8]
}

/// How many bytes the row starting at position `i` holds: up to 16, bounded
/// by the end of the input and by the length boundary `end`. Zero means the
/// traversal is over.
pub open spec fn row_take(input: Seq<u8>, i: nat, end: nat) -> int {
    if i >= input.len() || i >= end {
        0
    } else {
        let a = if input.len() - i < 16 {
            input.len() - i
        } else {
            16
        };
        if end - i < a {
            end - i
        } else {
            a
        }
    }
}

/// The dump bytes produced from position `i` onward, including the closing
/// offset line.
///
/// `prev` holds the bytes of the previous row when `have_prev` is set, which
/// it is exactly when the previous row was a full 16-byte row; `st` is the
/// squeeze detector's state and `squeeze` whether squeezing is enabled at
/// all. Each full row identical to the preceding full row advances the
/// detector (first duplicate suppressed silently, second one replaced by the
/// marker line, the rest suppressed); every other row is rendered and resets
/// the detector. A row shorter than 16 bytes never participates in
/// squeezing, and nothing follows it but the closing offset line.
pub open spec fn dump_from(
    input: Seq<u8>,
    i: nat,
    end: nat,
    prev: Seq<u8>,
    have_prev: bool,
    st: SqueezeState,
    squeeze: bool,
) -> Seq<u8>
    decreases input.len() - i,
{
    let take = row_take(input, i, end);
    if take <= 0 {
        final_line(i)
    } else {
        let row = input.subrange(i as int, i + take);
        let duplicate = squeeze && take == 16 && have_prev && row == prev;
        let step = squeeze_step(st, duplicate);
        let piece = if step.2 {
            marker_line()
        } else if step.1 {
            line_spec(row, i)
        } else {
            Seq::<u8>::empty()
        };
        piece + dump_from(
            input,
            (i + take) as nat,
            end,
            if take == 16 {
                row
            } else {
                prev
            },
            take == 16,
            step.0,
            squeeze,
        )
    }
}

/// How many bytes a skip request actually discards: the requested count,
/// clamped to the bytes available.
pub open spec fn skip_count(input: Seq<u8>, skip: nat) -> nat {
    if skip <= input.len() {
        skip
    } else {
        input.len()
    }
}

/// The entire dump for `input`: skip up to `skip` bytes, interpret at most
/// `length` bytes after the skipped prefix, and render rows with squeeze
/// detection enabled by `squeeze`. Always ends with the closing offset
/// line.
pub open spec fn dump_spec(input: Seq<u8>, skip: nat, length: nat, squeeze: bool) -> Seq<u8> {
    let start = skip_count(input, skip);
    dump_from(input, start, start + length, Seq::empty(), false, SqueezeState::NotSqueezing, squeeze)
}

/// A row shorter than 16 bytes is never squeezed: whatever the detector's
/// state and whatever row came before — even one whose bytes match — the
/// short row is rendered in full, and the detector resets.
pub proof fn lemma_short_row_visible(
    input: Seq<u8>,
    i: nat,
    end: nat,
    prev: Seq<u8>,
    have_prev: bool,
    st: SqueezeState,
    squeeze: bool,
)
    requires
        0 < row_take(input, i, end) < 16,
    ensures
        dump_from(input, i, end, prev, have_prev, st, squeeze) == line_spec(
            input.subrange(i as int, i + row_take(input, i, end)),
            i,
        ) + dump_from(
            input,
            (i + row_take(input, i, end)) as nat,
            end,
            prev,
            false,
            SqueezeState::NotSqueezing,
            squeeze,
        ),
{
}

/// A skip at or beyond the end of the input yields only the closing offset
/// line, whose offset is the byte count actually available — the post-skip
/// position clamped to the input's length.
pub proof fn lemma_skip_beyond_input(input: Seq<u8>, skip: nat, length: nat, squeeze: bool)
    requires
        skip >= input.len(),
    ensures
        dump_spec(input, skip, length, squeeze) == final_line(input.len()),
{
}

/// Rendering is deterministic: the dump for a given input, skip, length and
/// squeeze setting is one fixed byte sequence, so rendering the same bytes
/// twice yields identical output.
pub proof fn lemma_dump_deterministic(a: Seq<u8>, b: Seq<u8>, skip: nat, length: nat, squeeze: bool)
    requires
        a == b,
    ensures
        dump_spec(a, skip, length, squeeze) == dump_spec(b, skip, length, squeeze),
{
}

/// Number of bytes a skip of `skip` discards from `input`.
pub fn skip_bytes(input: &[u8], skip: usize) -> (r: usize)
    ensures
        r as nat == skip_count(input@, skip as nat),
{
    if skip <= input.len() {
        skip
    } else {
        input.len()
    }
}

/// Whether the 16-byte regions of `input` starting at `a` and at `b` hold
/// the same bytes.
fn rows_equal(input: &[u8], a: usize, b: usize) -> (r: bool)
    requires
        a + 16 <= input@.len(),
        b + 16 <= input@.len(),
    ensures
        r == (input@.subrange(a as int, a as int + 16) == input@.subrange(
            b as int,
            b as int + 16,
        )),
{
    let n: usize = input.len();
    let ghost sa = input@.subrange(a as int, a as int + 16);
    let ghost sb = input@.subrange(b as int, b as int + 16);
    let mut k: usize = 0;
    while k < 16
        invariant
            k <= 16,
            n == input@.len(),
            a + 16 <= n,
            b + 16 <= n,
            sa == input@.subrange(a as int, a as int + 16),
            sb == input@.subrange(b as int, b as int + 16),
            forall|m: int| 0 <= m < k ==> sa[m] == sb[m],
        decreases 16 - k,
    {
        if input[a + k] != input[b + k] {
            proof {
                assert(sa[k as int] != sb[k as int]);
            }
            return false;
        }
        k = k + 1;
    }
    proof {
        assert(sa =~= sb);
    }
    true
}

/// Render the canonical dump of `input` into `out`.
///
/// Up to `skip` bytes are discarded first; at most `length` bytes after the
/// skipped prefix are interpreted; `squeeze` enables the collapsing of
/// duplicate full rows. The bytes appended to `out` are exactly
/// `dump_spec(input, skip, length, squeeze)`: the visible rows, at most one
/// marker line per squeeze run, and the closing offset line.
pub fn print_canonical(out: &mut Vec<u8>, input: &[u8], skip: usize, length: usize, squeeze: bool)
    ensures
        final(out)@ == old(out)@ + dump_spec(input@, skip as nat, length as nat, squeeze),
{
    let n: usize = input.len();
    let start: usize = skip_bytes(input, skip);
    let ghost end_g: nat = start as nat + length as nat;
    let end: usize = if usize::MAX - start < length {
        usize::MAX
    } else {
        start + length
    };
    let mut i: usize = start;
    let mut st = SqueezeState::NotSqueezing;
    let mut have_prev: bool = false;
    let mut prev_start: usize = 0;
    let ghost mut prev_g: Seq<u8> = Seq::empty();

    loop
        invariant
            n == input@.len(),
            start as nat == skip_count(input@, skip as nat),
            end_g == start as nat + length as nat,
            end as nat == if end_g > usize::MAX as nat {
                usize::MAX as nat
            } else {
                end_g
            },
            start <= i,
            i <= n,
            i as nat <= end_g,
            i <= end,
            have_prev ==> prev_start + 16 <= i && prev_g == input@.subrange(
                prev_start as int,
                prev_start as int + 16,
            ),
            old(out)@ + dump_spec(input@, skip as nat, length as nat, squeeze) == out@
                + dump_from(input@, i as nat, end_g, prev_g, have_prev, st, squeeze),
        ensures
            row_take(input@, i as nat, end_g) == 0,
        decreases n - i,
    {
        let avail: usize = n - i;
        let mut take: usize = if avail < 16 {
            avail
        } else {
            16
        };
        if take == 0 {
            break ;
        }
        if end - i < take {
            take = end - i;
        }
        if take == 0 {
            proof {
                if end_g > usize::MAX as nat {
                    assert(end == usize::MAX);
                    assert(i < n);
                    assert(false);
                }
                assert(i as nat >= end_g);
            }
            break ;
        }
        proof {
            assert(take as int == row_take(input@, i as nat, end_g));
        }
        // Copy the row's valid bytes into a fixed row buffer.
        let mut row: Vec<u8> = Vec::new();
        let mut k: usize = 0;
        while k < take
            invariant
                k <= take,
                i + take <= n,
                n == input@.len(),
                row@ == input@.subrange(i as int, i as int + k as int),
            decreases take - k,
        {
            row.push(input[i + k]);
            proof {
                assert(row@ =~= input@.subrange(i as int, i as int + k as int + 1));
            }
            k = k + 1;
        }
        let duplicate: bool = if squeeze && take == 16 && have_prev {
            rows_equal(input, prev_start, i)
        } else {
            false
        };
        let (next_st, visible, marker) = squeeze_decide(st, duplicate);
        let ghost out0: Seq<u8> = out@;
        let ghost piece: Seq<u8> = if marker {
            marker_line()
        } else if visible {
            line_spec(row@, i as nat)
        } else {
            Seq::<u8>::empty()
        };
        if marker {
            out.push(0x2a);
            out.push(0x0a);
            proof {
                assert(out@ =~= out0 + marker_line());
            }
        } else if visible {
            render_line(out, row.as_slice(), i);
        }
        proof {
            assert(out@ == out0 + piece);
            let rest = dump_from(
                input@,
                i as nat + take as nat,
                end_g,
                if take == 16 {
                    row@
                } else {
                    prev_g
                },
                take == 16,
                next_st,
                squeeze,
            );
            assert(row@ =~= input@.subrange(i as int, i as int + row_take(input@, i as nat, end_g)));
            assert(dump_from(input@, i as nat, end_g, prev_g, have_prev, st, squeeze) == piece
                + rest);
            assert(out0 + (piece + rest) =~= (out0 + piece) + rest);
        }
        if take == 16 {
            prev_start = i;
            have_prev = true;
            proof {
                prev_g = row@;
            }
        } else {
            have_prev = false;
        }
        st = next_st;
        i = i + take;
    }
    let ghost out1: Seq<u8> = out@;
    hex(out, i);
    out.push(0x0a);
    proof {
        assert(dump_from(input@, i as nat, end_g, prev_g, have_prev, st, squeeze) == final_line(
            i as nat,
        ));
        assert(out@ =~= out1 + final_line(i as nat));
    }
}

} // verus!
