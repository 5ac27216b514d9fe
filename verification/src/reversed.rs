//! IEEE-754 bit patterns, encoded with their bytes in reverse order.
//!
//! A floating-point number that is an integer or a simple fraction has zero
//! bytes at the low end of its bit pattern. Reversed, they stand at the high
//! end, and the encoding gets short.

use vstd::prelude::*;
use crate::format::canonical;
use crate::format::decoded;
use crate::format::le_bytes;
use crate::format::le_value;
use crate::lemmas::lemma_pow256_values;
use crate::format::minimal_len;
use crate::format::prefix_len;
use crate::unsigned::decode_u32;
use crate::unsigned::decode_u64;
use crate::unsigned::encode_u32;
use crate::unsigned::encode_u64;

verus! {

/// The number whose `n` little-endian bytes are those of `v` in reverse
/// order.
pub open spec fn byte_swapped(v: nat, n: nat) -> nat {
    le_value(le_bytes(v, n).reverse(), n)
}

/// Reverses the order of the four bytes of `x`.
pub fn swap_bytes_u32(x: u32) -> (r: u32)
    ensures
        r == byte_swapped(x as nat, 4),
{
    let r: u32 = (x << 24) | ((x & 0xFF00) << 8) | ((x >> 8) & 0xFF00) | (x >> 24);
    proof {
        assert(r == (x % 0x100) * 0x100_0000 + (x / 0x100 % 0x100) * 0x1_0000 + (x / 0x1_0000
            % 0x100) * 0x100 + (x / 0x100_0000 % 0x100)) by (bit_vector)
            requires
                r == (x << 24) | ((x & 0xFF00) << 8) | ((x >> 8) & 0xFF00) | (x >> 24),
        ;
        lemma_pow256_values();
        reveal_with_fuel(le_value, 5);
        let s = le_bytes(x as nat, 4).reverse();
        assert(s[0] == le_bytes(x as nat, 4)[3]);
        assert(s[1] == le_bytes(x as nat, 4)[2]);
        assert(s[2] == le_bytes(x as nat, 4)[1]);
        assert(s[3] == le_bytes(x as nat, 4)[0]);
        assert(s[0] == x as nat / 0x100_0000 % 256);
        assert(s[1] == x as nat / 0x1_0000 % 256);
        assert(s[2] == x as nat / 0x100 % 256);
        assert(s[3] == x as nat / 1 % 256);
        assert(le_value(s, 4) == s[0] + s[1] * 0x100 + s[2] * 0x1_0000 + s[3] * 0x100_0000);
    }
    r
}

/// Reverses the order of the eight bytes of `x`.
pub fn swap_bytes_u64(x: u64) -> (r: u64)
    ensures
        r == byte_swapped(x as nat, 8),
{
    let r: u64 = (x << 56) | ((x & 0xFF00) << 40) | ((x & 0xFF_0000) << 24) | ((x & 0xFF00_0000)
        << 8) | ((x >> 8) & 0xFF00_0000) | ((x >> 24) & 0xFF_0000) | ((x >> 40) & 0xFF00) | (x
        >> 56);
    proof {
        assert(r == (x % 0x100) * 0x100_0000_0000_0000 + (x / 0x100 % 0x100) * 0x1_0000_0000_0000
            + (x / 0x1_0000 % 0x100) * 0x100_0000_0000 + (x / 0x100_0000 % 0x100) * 0x1_0000_0000
            + (x / 0x1_0000_0000 % 0x100) * 0x100_0000 + (x / 0x100_0000_0000 % 0x100) * 0x1_0000
            + (x / 0x1_0000_0000_0000 % 0x100) * 0x100 + (x / 0x100_0000_0000_0000 % 0x100))
            by (bit_vector)
            requires
                r == (x << 56) | ((x & 0xFF00) << 40) | ((x & 0xFF_0000) << 24) | ((x
                    & 0xFF00_0000) << 8) | ((x >> 8) & 0xFF00_0000) | ((x >> 24) & 0xFF_0000) | ((x
                    >> 40) & 0xFF00) | (x >> 56),
        ;
        lemma_pow256_values();
        reveal_with_fuel(le_value, 9);
        let b = le_bytes(x as nat, 8);
        let s = b.reverse();
        assert(s[0] == b[7] && s[1] == b[6] && s[2] == b[5] && s[3] == b[4]);
        assert(s[4] == b[3] && s[5] == b[2] && s[6] == b[1] && s[7] == b[0]);
        assert(s[0] == x as nat / 0x100_0000_0000_0000 % 256);
        assert(s[1] == x as nat / 0x1_0000_0000_0000 % 256);
        assert(s[2] == x as nat / 0x100_0000_0000 % 256);
        assert(s[3] == x as nat / 0x1_0000_0000 % 256);
        assert(s[4] == x as nat / 0x100_0000 % 256);
        assert(s[5] == x as nat / 0x1_0000 % 256);
        assert(s[6] == x as nat / 0x100 % 256);
        assert(s[7] == x as nat / 1 % 256);
        assert(le_value(s, 8) == s[0] + s[1] * 0x100 + s[2] * 0x1_0000 + s[3] * 0x100_0000 + s[4]
            * 0x1_0000_0000 + s[5] * 0x100_0000_0000 + s[6] * 0x1_0000_0000_0000 + s[7]
            * 0x100_0000_0000_0000);
    }
    r
}

/// Encodes an IEEE-754 single-precision bit pattern at the start of `buf`:
/// the unsigned encoding of the pattern with its bytes reversed. Returns the
/// length of the encoding.
#[must_use]
pub fn encode_f32_bits(buf: &mut [u8; 5], bits: u32) -> (len: usize)
    ensures
        len == minimal_len(byte_swapped(bits as nat, 4)),
        1 <= len <= 5,
        final(buf)@.subrange(0, len as int) == canonical(byte_swapped(bits as nat, 4)),
{
    encode_u32(buf, swap_bytes_u32(bits))
}

/// Encodes an IEEE-754 double-precision bit pattern at the start of `buf`:
/// the unsigned encoding of the pattern with its bytes reversed. Returns the
/// length of the encoding.
#[must_use]
pub fn encode_f64_bits(buf: &mut [u8; 9], bits: u64) -> (len: usize)
    ensures
        len == minimal_len(byte_swapped(bits as nat, 8)),
        1 <= len <= 9,
        final(buf)@.subrange(0, len as int) == canonical(byte_swapped(bits as nat, 8)),
{
    encode_u64(buf, swap_bytes_u64(bits))
}

/// Decodes the encoding at the start of `buf` and returns the IEEE-754
/// single-precision bit pattern that it stands for, the decoded number with
/// its bytes reversed, with the length of the encoding.
#[must_use]
pub fn decode_f32_bits(buf: &[u8; 5]) -> (r: (u32, usize))
    ensures
        r.0 == byte_swapped(decoded(buf@, 4), 4),
        r.1 == prefix_len(buf@[0]),
{
    let (swapped, len) = decode_u32(buf);
    (swap_bytes_u32(swapped), len)
}

/// Decodes the encoding at the start of `buf` and returns the IEEE-754
/// double-precision bit pattern that it stands for, the decoded number with
/// its bytes reversed, with the length of the encoding.
#[must_use]
pub fn decode_f64_bits(buf: &[u8; 9]) -> (r: (u64, usize))
    ensures
        r.0 == byte_swapped(decoded(buf@, 8), 8),
        r.1 == prefix_len(buf@[0]),
{
    let (swapped, len) = decode_u64(buf);
    (swap_bytes_u64(swapped), len)
}

} // verus!
