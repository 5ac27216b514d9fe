//! Little-endian bytes of an integer: counting, storing and loading them.

use vstd::prelude::*;
use vstd::std_specs::bits::axiom_u64_leading_zeros;
use crate::format::byte_len;
use crate::format::le_bytes;
use crate::format::le_value;
use crate::lemmas::lemma_byte_len_bounds;
use crate::lemmas::lemma_byte_len_range;
use crate::lemmas::lemma_le_bytes_concat;
use crate::lemmas::lemma_le_value_concat;
use crate::lemmas::lemma_pow256_sum;
use crate::lemmas::lemma_pow256_values;
use crate::format::pow256;

verus! {

/// The number of bytes of `x` up to its highest byte that is not zero; one
/// for zero.
pub fn significant_bytes_u64(x: u64) -> (n: u8)
    ensures
        n == byte_len(x as nat),
        1 <= n <= 8,
{
    let marked: u64 = x | 1;
    let lz: u32 = marked.leading_zeros();
    proof {
        axiom_u64_leading_zeros(marked);
        assert(marked != 0) by (bit_vector)
            requires
                marked == x | 1,
        ;
        let top: u64 = (63 - lz) as u64;
        let above: u64 = (64 - lz) as u64;
        assert((marked >> top) & 1 != 0);
        assert(marked >> above == 0);
        let m: u8 = ((lz >> 3) as u8) ^ 7;
        assert(m <= 7 && (m == 0 ==> x < 0x100) && (m == 1 ==> 0x100 <= x && x < 0x1_0000) && (m
            == 2 ==> 0x1_0000 <= x && x < 0x100_0000) && (m == 3 ==> 0x100_0000 <= x && x
            < 0x1_0000_0000) && (m == 4 ==> 0x1_0000_0000 <= x && x < 0x100_0000_0000) && (m == 5
            ==> 0x100_0000_0000 <= x && x < 0x1_0000_0000_0000) && (m == 6 ==> 0x1_0000_0000_0000
            <= x && x < 0x100_0000_0000_0000) && (m == 7 ==> 0x100_0000_0000_0000 <= x))
            by (bit_vector)
            requires
                marked == x | 1,
                lz < 64,
                top == 63 - lz,
                above == 64 - lz,
                (marked >> top) & 1 != 0,
                marked >> above == 0,
                m == ((lz >> 3) as u8) ^ 7,
        ;
        lemma_pow256_values();
        lemma_byte_len_range(x as nat, (m + 1) as nat);
    }
    let len: u8 = ((lz >> 3) as u8) ^ 7;
    len + 1
}

/// The number of bytes of `x` up to its highest byte that is not zero; one
/// for zero.
pub fn significant_bytes_u128(x: u128) -> (n: u8)
    ensures
        n == byte_len(x as nat),
        1 <= n <= 16,
{
    let high: u64 = (x >> 64) as u64;
    let low: u64 = #[verifier::truncate] (x as u64);
    assert(x == low + 0x1_0000_0000_0000_0000 * high) by (bit_vector)
        requires
            high == (x >> 64) as u64,
            low == x as u64,
    ;
    if high != 0 {
        let n: u8 = significant_bytes_u64(high);
        proof {
            lemma_pow256_values();
            lemma_byte_len_bounds(high as nat);
            lemma_pow256_sum(n as nat, 8);
            lemma_pow256_sum((n - 1) as nat, 8);
            assert(x < pow256((n + 8) as nat)) by (nonlinear_arith)
                requires
                    x == low + 0x1_0000_0000_0000_0000 * high,
                    low < 0x1_0000_0000_0000_0000,
                    high + 1 <= pow256(n as nat),
                    pow256(n as nat) * 0x1_0000_0000_0000_0000 == pow256((n + 8) as nat),
            ;
            assert(pow256((n + 7) as nat) <= x) by (nonlinear_arith)
                requires
                    x == low + 0x1_0000_0000_0000_0000 * high,
                    0 <= low,
                    pow256((n - 1) as nat) <= high,
                    pow256((n - 1) as nat) * 0x1_0000_0000_0000_0000 == pow256((n + 7) as nat),
            ;
            lemma_byte_len_range(x as nat, (n + 8) as nat);
        }
        n + 8
    } else {
        significant_bytes_u64(low)
    }
}

/// Writes the four bytes of `x` to `buf` from index `at` on, lowest first.
/// The other bytes of `buf` stay as they were.
pub fn store_le_u32<const N: usize>(buf: &mut [u8; N], at: usize, x: u32)
    requires
        at + 4 <= N,
    ensures
        final(buf)@.subrange(at as int, at + 4) == le_bytes(x as nat, 4),
        forall|j: int| 0 <= j < N && !(at <= j < at + 4) ==> final(buf)@[j] == old(buf)@[j],
{
    proof {
        assert(x as u8 == x % 0x100 && (x >> 8) as u8 == x / 0x100 % 0x100 && (x >> 16) as u8 == x
            / 0x1_0000 % 0x100 && (x >> 24) as u8 == x / 0x100_0000 % 0x100) by (bit_vector);
        lemma_pow256_values();
    }
    buf[at] = #[verifier::truncate] (x as u8);
    buf[at + 1] = #[verifier::truncate] ((x >> 8) as u8);
    buf[at + 2] = #[verifier::truncate] ((x >> 16) as u8);
    buf[at + 3] = #[verifier::truncate] ((x >> 24) as u8);
    proof {
        let written = buf@.subrange(at as int, at + 4);
        let bytes = le_bytes(x as nat, 4);
        assert(written[0] == bytes[0] && written[1] == bytes[1] && written[2] == bytes[2]
            && written[3] == bytes[3]);
        assert(written =~= bytes);
    }
}

/// Writes the eight bytes of `x` to `buf` from index `at` on, lowest first.
/// The other bytes of `buf` stay as they were.
pub fn store_le_u64<const N: usize>(buf: &mut [u8; N], at: usize, x: u64)
    requires
        at + 8 <= N,
    ensures
        final(buf)@.subrange(at as int, at + 8) == le_bytes(x as nat, 8),
        forall|j: int| 0 <= j < N && !(at <= j < at + 8) ==> final(buf)@[j] == old(buf)@[j],
{
    let low: u32 = #[verifier::truncate] (x as u32);
    let high: u32 = (x >> 32) as u32;
    proof {
        assert(low == x % 0x1_0000_0000 && high == x / 0x1_0000_0000) by (bit_vector)
            requires
                low == x as u32,
                high == (x >> 32) as u32,
        ;
        lemma_pow256_values();
        lemma_le_bytes_concat(x as nat, 4, 4);
    }
    store_le_u32(buf, at, low);
    store_le_u32(buf, at + 4, high);
    proof {
        let lower = buf@.subrange(at as int, at + 4);
        let upper = buf@.subrange(at + 4, at + 8);
        assert(lower =~= le_bytes(low as nat, 4));
        assert(buf@.subrange(at as int, at + 8) =~= lower + upper);
    }
}

/// Writes the sixteen bytes of `x` to `buf` from index `at` on, lowest
/// first. The other bytes of `buf` stay as they were.
pub fn store_le_u128<const N: usize>(buf: &mut [u8; N], at: usize, x: u128)
    requires
        at + 16 <= N,
    ensures
        final(buf)@.subrange(at as int, at + 16) == le_bytes(x as nat, 16),
        forall|j: int| 0 <= j < N && !(at <= j < at + 16) ==> final(buf)@[j] == old(buf)@[j],
{
    let low: u64 = #[verifier::truncate] (x as u64);
    let high: u64 = (x >> 64) as u64;
    proof {
        assert(low == x % 0x1_0000_0000_0000_0000 && high == x / 0x1_0000_0000_0000_0000)
            by (bit_vector)
            requires
                low == x as u64,
                high == (x >> 64) as u64,
        ;
        lemma_pow256_values();
        lemma_le_bytes_concat(x as nat, 8, 8);
    }
    store_le_u64(buf, at, low);
    store_le_u64(buf, at + 8, high);
    proof {
        let lower = buf@.subrange(at as int, at + 8);
        let upper = buf@.subrange(at + 8, at + 16);
        assert(lower =~= le_bytes(low as nat, 8));
        assert(buf@.subrange(at as int, at + 16) =~= lower + upper);
    }
}

/// Reads the four bytes of `buf` from index `at` on as a little-endian
/// number.
pub fn load_le_u32<const N: usize>(buf: &[u8; N], at: usize) -> (r: u32)
    requires
        at + 4 <= N,
    ensures
        r == le_value(buf@.subrange(at as int, at + 4), 4),
{
    let b0: u8 = buf[at];
    let b1: u8 = buf[at + 1];
    let b2: u8 = buf[at + 2];
    let b3: u8 = buf[at + 3];
    let r: u32 = ((b3 as u32) << 24) | ((b2 as u32) << 16) | ((b1 as u32) << 8) | (b0 as u32);
    proof {
        assert(r == b0 + b1 * 0x100 + b2 * 0x1_0000 + b3 * 0x100_0000) by (bit_vector)
            requires
                r == ((b3 as u32) << 24) | ((b2 as u32) << 16) | ((b1 as u32) << 8) | (b0 as u32),
        ;
        lemma_pow256_values();
        let bytes = buf@.subrange(at as int, at + 4);
        assert(bytes[0] == b0 && bytes[1] == b1 && bytes[2] == b2 && bytes[3] == b3);
        assert(le_value(bytes, 1) == le_value(bytes, 0) + bytes[0] as nat * pow256(0));
        assert(le_value(bytes, 2) == le_value(bytes, 1) + bytes[1] as nat * pow256(1));
        assert(le_value(bytes, 3) == le_value(bytes, 2) + bytes[2] as nat * pow256(2));
        assert(le_value(bytes, 4) == le_value(bytes, 3) + bytes[3] as nat * pow256(3));
    }
    r
}

/// Reads the eight bytes of `buf` from index `at` on as a little-endian
/// number.
pub fn load_le_u64<const N: usize>(buf: &[u8; N], at: usize) -> (r: u64)
    requires
        at + 8 <= N,
    ensures
        r == le_value(buf@.subrange(at as int, at + 8), 8),
{
    let low: u32 = load_le_u32(buf, at);
    let high: u32 = load_le_u32(buf, at + 4);
    let r: u64 = ((high as u64) << 32) | (low as u64);
    proof {
        assert(r == low + high * 0x1_0000_0000) by (bit_vector)
            requires
                r == ((high as u64) << 32) | (low as u64),
        ;
        lemma_pow256_values();
        let whole = buf@.subrange(at as int, at + 8);
        let lower = buf@.subrange(at as int, at + 4);
        let upper = buf@.subrange(at + 4, at + 8);
        assert(whole =~= lower + upper);
        assert(low == le_value(lower, 4));
        assert(high == le_value(upper, 4));
        lemma_le_value_concat(lower, upper, 4);
        assert(le_value(whole, 8) == le_value(lower, 4) + pow256(4) * le_value(upper, 4));
    }
    r
}

/// Reads the sixteen bytes of `buf` from index `at` on as a little-endian
/// number.
pub fn load_le_u128<const N: usize>(buf: &[u8; N], at: usize) -> (r: u128)
    requires
        at + 16 <= N,
    ensures
        r == le_value(buf@.subrange(at as int, at + 16), 16),
{
    let low: u64 = load_le_u64(buf, at);
    let high: u64 = load_le_u64(buf, at + 8);
    let r: u128 = ((high as u128) << 64) | (low as u128);
    proof {
        assert(r == low + high * 0x1_0000_0000_0000_0000) by (bit_vector)
            requires
                r == ((high as u128) << 64) | (low as u128),
        ;
        lemma_pow256_values();
        let whole = buf@.subrange(at as int, at + 16);
        let lower = buf@.subrange(at as int, at + 8);
        let upper = buf@.subrange(at + 8, at + 16);
        assert(whole =~= lower + upper);
        assert(low == le_value(lower, 8));
        assert(high == le_value(upper, 8));
        lemma_le_value_concat(lower, upper, 8);
        assert(le_value(whole, 16) == le_value(lower, 8) + pow256(8) * le_value(upper, 8));
    }
    r
}

/// Keeps the `keep` low bytes of `raw` and clears the bytes above them.
pub fn keep_low_bytes_u32(raw: u32, keep: u8) -> (r: u32)
    requires
        1 <= keep <= 4,
    ensures
        r == raw as nat % pow256(keep as nat),
{
    let cleared: u8 = 4 - keep;
    let mask: u32 = u32::MAX >> (cleared * 8);
    let r: u32 = raw & mask;
    proof {
        assert((keep == 1 ==> r == raw % 0x100) && (keep == 2 ==> r == raw % 0x1_0000) && (keep
            == 3 ==> r == raw % 0x100_0000) && (keep == 4 ==> r == raw)) by (bit_vector)
            requires
                1 <= keep <= 4,
                r == raw & (0xFFFF_FFFFu32 >> (((4 - keep) as u8) * 8)),
        ;
        lemma_pow256_values();
        assert(keep == 1 || keep == 2 || keep == 3 || keep == 4);
    }
    r
}

/// Keeps the `keep` low bytes of `raw` and clears the bytes above them.
pub fn keep_low_bytes_u64(raw: u64, keep: u8) -> (r: u64)
    requires
        1 <= keep <= 8,
    ensures
        r == raw as nat % pow256(keep as nat),
{
    let cleared: u8 = 8 - keep;
    let mask: u64 = u64::MAX >> (cleared * 8);
    let r: u64 = raw & mask;
    proof {
        assert((keep == 1 ==> r == raw % 0x100) && (keep == 2 ==> r == raw % 0x1_0000) && (keep
            == 3 ==> r == raw % 0x100_0000) && (keep == 4 ==> r == raw % 0x1_0000_0000) && (keep
            == 5 ==> r == raw % 0x100_0000_0000) && (keep == 6 ==> r == raw % 0x1_0000_0000_0000)
            && (keep == 7 ==> r == raw % 0x100_0000_0000_0000) && (keep == 8 ==> r == raw))
            by (bit_vector)
            requires
                1 <= keep <= 8,
                r == raw & (0xFFFF_FFFF_FFFF_FFFFu64 >> (((8 - keep) as u8) * 8)),
        ;
        lemma_pow256_values();
        assert(keep == 1 || keep == 2 || keep == 3 || keep == 4 || keep == 5 || keep == 6 || keep
            == 7 || keep == 8);
    }
    r
}

/// Keeps the `keep` low bytes of `raw` and clears the bytes above them.
pub fn keep_low_bytes_u128(raw: u128, keep: u8) -> (r: u128)
    requires
        1 <= keep <= 16,
    ensures
        r == raw as nat % pow256(keep as nat),
{
    let cleared: u8 = 16 - keep;
    let mask: u128 = u128::MAX >> (cleared * 8);
    let r: u128 = raw & mask;
    proof {
        assert((keep == 1 ==> r == raw % 0x100) && (keep == 2 ==> r == raw % 0x1_0000) && (keep
            == 3 ==> r == raw % 0x100_0000) && (keep == 4 ==> r == raw % 0x1_0000_0000) && (keep
            == 5 ==> r == raw % 0x100_0000_0000) && (keep == 6 ==> r == raw % 0x1_0000_0000_0000)
            && (keep == 7 ==> r == raw % 0x100_0000_0000_0000) && (keep == 8 ==> r == raw
            % 0x1_0000_0000_0000_0000) && (keep == 9 ==> r == raw % 0x100_0000_0000_0000_0000)
            && (keep == 10 ==> r == raw % 0x1_0000_0000_0000_0000_0000) && (keep == 11 ==> r
            == raw % 0x100_0000_0000_0000_0000_0000) && (keep == 12 ==> r == raw
            % 0x1_0000_0000_0000_0000_0000_0000) && (keep == 13 ==> r == raw
            % 0x100_0000_0000_0000_0000_0000_0000) && (keep == 14 ==> r == raw
            % 0x1_0000_0000_0000_0000_0000_0000_0000) && (keep == 15 ==> r == raw
            % 0x100_0000_0000_0000_0000_0000_0000_0000) && (keep == 16 ==> r == raw))
            by (bit_vector)
            requires
                1 <= keep <= 16,
                r == raw & (0xFFFF_FFFF_FFFF_FFFF_FFFF_FFFF_FFFF_FFFFu128 >> (((16 - keep) as u8)
                    * 8)),
        ;
        lemma_pow256_values();
        assert(keep == 1 || keep == 2 || keep == 3 || keep == 4 || keep == 5 || keep == 6 || keep
            == 7 || keep == 8 || keep == 9 || keep == 10 || keep == 11 || keep == 12 || keep == 13
            || keep == 14 || keep == 15 || keep == 16);
    }
    r
}

/// The first byte of the counted layout with `count` payload bytes.
pub fn counted_prefix(count: u8) -> (b0: u8)
    requires
        1 <= count <= 16,
    ensures
        b0 == 0xF0 + count - 1,
{
    let low: u8 = count - 1;
    assert(0xF0u8 | low == 0xF0 + low) by (bit_vector)
        requires
            low <= 15,
    ;
    0xF0 | low
}

/// The number of payload bytes that the first byte of a counted layout
/// stores.
pub fn stored_count(b0: u8) -> (count: u8)
    requires
        b0 >= 0xF0,
    ensures
        count == b0 - 0xF0 + 1,
{
    let low: u8 = b0 & 0x0F;
    assert(low == b0 - 0xF0) by (bit_vector)
        requires
            b0 >= 0xF0,
            low == b0 & 0x0F,
    ;
    low + 1
}

} // verus!
