//! What holds of the format as a whole: decoding undoes encoding, longer
//! layouts than needed decode to the same value, and the length never
//! shrinks as the value grows.

use vstd::prelude::*;
use vstd::arithmetic::div_mod::lemma_small_mod;
use crate::format::byte_len;
use crate::format::canonical;
use crate::format::counted;
use crate::format::decoded;
use crate::format::le_bytes;
use crate::format::le_value;
use crate::format::minimal_len;
use crate::format::packed;
use crate::format::packed_limit;
use crate::format::payload_len;
use crate::format::pow256;
use crate::format::prefix_len;
use crate::lemmas::lemma_byte_len_bounds;
use crate::lemmas::lemma_byte_len_monotonic;
use crate::lemmas::lemma_le_bytes_value;
use crate::lemmas::lemma_le_value_bound;
use crate::lemmas::lemma_le_value_bytes;
use crate::lemmas::lemma_le_value_prefix;
use crate::lemmas::lemma_pow256_monotonic;
use crate::lemmas::lemma_pow256_values;
use crate::reversed::byte_swapped;
use crate::signed::unzigzag;
use crate::signed::zigzag;

verus! {

/// A packed layout decodes to its value at every width, also where a
/// shorter layout would have held the value, and whatever follows it in the
/// buffer.
pub proof fn law_packed_decodes(s: Seq<u8>, v: nat, k: nat, width: nat)
    requires
        1 <= k <= 4,
        v < packed_limit(k),
        s.len() >= k,
        s.subrange(0, k as int) == packed(v, k),
    ensures
        prefix_len(s[0]) == k,
        decoded(s, width) == v,
{
    let head = s.subrange(0, k as int);
    assert(s[0] == head[0]);
    if k >= 2 {
        assert(s[1] == head[1]);
    }
    if k >= 3 {
        assert(s[2] == head[2]);
    }
    if k >= 4 {
        assert(s[3] == head[3]);
    }
}

/// A counted layout decodes to its value at every width that has room for
/// its payload, also where fewer payload bytes or a packed layout would
/// have held the value, and whatever follows it in the buffer.
pub proof fn law_counted_decodes(s: Seq<u8>, v: nat, n: nat, width: nat)
    requires
        width == 4 || width == 8 || width == 16,
        1 <= n <= width,
        v < pow256(n),
        s.len() >= n + 1,
        s.subrange(0, n as int + 1) == counted(v, n),
    ensures
        prefix_len(s[0]) == n + 1,
        decoded(s, width) == v,
{
    let head = s.subrange(0, n as int + 1);
    assert(s[0] == head[0]);
    assert(s[0] == 0xF0 + n - 1);
    assert(payload_len(s[0], width) == n);
    let payload = s.subrange(1, 1 + n as int);
    assert forall|i: int| 0 <= i < n implies payload[i] == le_bytes(v, n)[i] by {
        assert(payload[i] == head[i + 1]);
    }
    lemma_le_value_prefix(payload, le_bytes(v, n), n);
    lemma_le_bytes_value(v, n, n);
    lemma_small_mod(v, pow256(n));
}

/// Decoding undoes encoding: a buffer that starts with the encoding that
/// the encoders write for `v` decodes to `v`, and the first byte of that
/// encoding gives its length.
pub proof fn law_decode_inverts_encode(s: Seq<u8>, v: nat, width: nat)
    requires
        width == 4 || width == 8 || width == 16,
        v < pow256(width),
        s.len() >= minimal_len(v),
        s.subrange(0, minimal_len(v) as int) == canonical(v),
    ensures
        prefix_len(s[0]) == minimal_len(v),
        decoded(s, width) == v,
{
    if v < 0x1000_0000 {
        law_packed_decodes(s, v, minimal_len(v), width);
    } else {
        let n = byte_len(v);
        lemma_byte_len_bounds(v);
        if n > width {
            lemma_pow256_monotonic(width, (n - 1) as nat);
        }
        law_counted_decodes(s, v, n, width);
    }
}

/// The length of the shortest encoding never shrinks as the value grows.
pub proof fn law_minimal_len_monotonic(a: nat, b: nat)
    requires
        a <= b,
    ensures
        minimal_len(a) <= minimal_len(b),
{
    lemma_byte_len_monotonic(a, b);
    if b >= 0x1000_0000 {
        lemma_pow256_values();
        lemma_byte_len_bounds(b);
        if byte_len(b) < 4 {
            lemma_pow256_monotonic(byte_len(b), 3);
        }
    }
}

/// Where the length of the shortest encoding steps up: at two to the power
/// 7, 14, 21 and 28, and from there on at every power of 256.
pub proof fn law_minimal_len_steps(v: nat)
    ensures
        minimal_len(v) == 1 <==> v < 0x80,
        minimal_len(v) == 2 <==> 0x80 <= v < 0x4000,
        minimal_len(v) == 3 <==> 0x4000 <= v < 0x20_0000,
        minimal_len(v) == 4 <==> 0x20_0000 <= v < 0x1000_0000,
        minimal_len(v) == 5 <==> 0x1000_0000 <= v < pow256(4),
        minimal_len(v) > 5 ==> pow256((minimal_len(v) - 2) as nat) <= v < pow256(
            (minimal_len(v) - 1) as nat,
        ),
{
    lemma_pow256_values();
    lemma_byte_len_bounds(v);
    if v >= 0x1000_0000 {
        if byte_len(v) < 4 {
            lemma_pow256_monotonic(byte_len(v), 3);
        }
        if byte_len(v) > 4 {
            lemma_pow256_monotonic(4, (byte_len(v) - 1) as nat);
        }
    }
}

/// The zigzag mapping and its inverse undo each other.
pub proof fn law_zigzag_inverse(v: int, z: nat)
    ensures
        unzigzag(zigzag(v)) == v,
        zigzag(unzigzag(z)) == z,
{
}

/// Values of smaller magnitude come earlier in the zigzag row, so that
/// their encoding is no longer.
pub proof fn law_zigzag_by_magnitude(a: int, b: int)
    requires
        vstd::math::abs(a) < vstd::math::abs(b),
    ensures
        zigzag(a) < zigzag(b),
        minimal_len(zigzag(a)) <= minimal_len(zigzag(b)),
{
    law_minimal_len_monotonic(zigzag(a), zigzag(b));
}

/// Reversing the bytes twice gives the number back.
pub proof fn law_byte_swap_involution(v: nat, n: nat)
    requires
        v < pow256(n),
    ensures
        byte_swapped(v, n) < pow256(n),
        byte_swapped(byte_swapped(v, n), n) == v,
{
    let bytes = le_bytes(v, n);
    let turned = bytes.reverse();
    lemma_le_value_bound(turned, n);
    lemma_le_value_bytes(turned, n);
    assert(turned.reverse() =~= bytes);
    lemma_le_bytes_value(v, n, n);
    lemma_small_mod(v, pow256(n));
}

/// Signed values come back: a buffer that starts with the encoding of the
/// place of `v` in the zigzag row decodes to `v`, at every width whose signed
/// range holds `v`.
pub proof fn law_signed_round_trip(s: Seq<u8>, v: int, width: nat)
    requires
        width == 4 || width == 8 || width == 16,
        -pow256(width) <= 2 * v < pow256(width),
        s.len() >= minimal_len(zigzag(v)),
        s.subrange(0, minimal_len(zigzag(v)) as int) == canonical(zigzag(v)),
    ensures
        prefix_len(s[0]) == minimal_len(zigzag(v)),
        unzigzag(decoded(s, width)) == v,
{
    law_decode_inverts_encode(s, zigzag(v), width);
}

/// Bit patterns come back: a buffer that starts with the encoding of a bit
/// pattern with its bytes reversed decodes to that number, and reversing
/// its bytes gives the bit pattern.
pub proof fn law_reversed_round_trip(s: Seq<u8>, bits: nat, width: nat)
    requires
        width == 4 || width == 8 || width == 16,
        bits < pow256(width),
        s.len() >= minimal_len(byte_swapped(bits, width)),
        s.subrange(0, minimal_len(byte_swapped(bits, width)) as int) == canonical(
            byte_swapped(bits, width),
        ),
    ensures
        prefix_len(s[0]) == minimal_len(byte_swapped(bits, width)),
        byte_swapped(decoded(s, width), width) == bits,
{
    law_byte_swap_involution(bits, width);
    law_decode_inverts_encode(s, byte_swapped(bits, width), width);
}

/// No encoding is shorter than the one that the encoders write: whatever a
/// buffer decodes to, the length that its first byte gives is at least the
/// length of the shortest encoding of that value.
pub proof fn law_canonical_is_shortest(s: Seq<u8>, width: nat)
    requires
        width == 4 || width == 8 || width == 16,
        s.len() >= width + 1,
    ensures
        minimal_len(decoded(s, width)) <= prefix_len(s[0]),
{
    if s[0] >= 0xF0 {
        let n = payload_len(s[0], width);
        let payload = s.subrange(1, 1 + n as int);
        let v = le_value(payload, n);
        lemma_le_value_bound(payload, n);
        lemma_pow256_values();
        if v >= 0x1000_0000 {
            lemma_byte_len_bounds(v);
            if byte_len(v) > n {
                lemma_pow256_monotonic(n, (byte_len(v) - 1) as nat);
            }
        } else if n == 1 {
            assert(v < 0x100);
        } else if n == 2 {
            assert(v < 0x1_0000);
        }
    }
}

/// An encoding describes itself: every layout is as long as its first byte
/// says, and so is the encoding that the encoders write.
pub proof fn law_first_byte_gives_length(v: nat, k: nat, n: nat)
    requires
        1 <= k <= 4,
        1 <= n <= 16,
    ensures
        v < packed_limit(k) ==> packed(v, k).len() == k && prefix_len(packed(v, k)[0]) == k,
        counted(v, n).len() == n + 1 && prefix_len(counted(v, n)[0]) == n + 1,
        v < pow256(16) ==> canonical(v).len() == minimal_len(v) && prefix_len(canonical(v)[0])
            == minimal_len(v),
{
    if v >= 0x1000_0000 && v < pow256(16) {
        lemma_byte_len_bounds(v);
        if byte_len(v) > 16 {
            lemma_pow256_monotonic(16, (byte_len(v) - 1) as nat);
        }
    }
}

/// What a buffer decodes to is settled by the bytes of its encoding: two
/// buffers that agree on them decode alike, whatever follows.
pub proof fn law_trailing_bytes_ignored(s: Seq<u8>, t: Seq<u8>, width: nat)
    requires
        width == 4 || width == 8 || width == 16,
        s.len() >= width + 1,
        t.len() >= width + 1,
        forall|i: int| 0 <= i < prefix_len(s[0]) && i <= width ==> s[i] == t[i],
    ensures
        decoded(s, width) == decoded(t, width),
{
    assert(s[0] == t[0]);
    if s[0] >= 0xF0 {
        let n = payload_len(s[0], width);
        lemma_le_value_prefix(s.subrange(1, 1 + n as int), t.subrange(1, 1 + n as int), n);
    }
}

/// What a decoder of some width reads fits that width.
pub proof fn law_decoded_fits(s: Seq<u8>, width: nat)
    requires
        width == 4 || width == 8 || width == 16,
        s.len() >= width + 1,
    ensures
        decoded(s, width) < pow256(width),
{
    lemma_pow256_values();
    if s[0] >= 0xF0 {
        let n = payload_len(s[0], width);
        lemma_le_value_bound(s.subrange(1, 1 + n as int), n);
        lemma_pow256_monotonic(n, width);
    }
}

/// The length that a decoder reports is the length that the first byte
/// alone gives: buffers that share their first byte have encodings of one
/// length, between 1 and 17 bytes, whatever else they hold.
pub proof fn law_length_agreement(s: Seq<u8>, t: Seq<u8>)
    requires
        s.len() >= 1,
        t.len() >= 1,
        s[0] == t[0],
    ensures
        prefix_len(s[0]) == prefix_len(t[0]),
        1 <= prefix_len(s[0]) <= 17,
{
}

} // verus!
