//! Encoding and decoding of unsigned integers of 32, 64 and 128 bits.
//!
//! A buffer has room for the longest encoding of its width: 5, 9 or 17
//! bytes. An encoder fills a prefix of it and returns the length of that
//! prefix; what the rest of the buffer holds afterwards is left open. A
//! decoder takes the encoding at the start of the buffer and does not let the
//! bytes behind it into the value.

use vstd::prelude::*;
use crate::bytes::counted_prefix;
use crate::bytes::keep_low_bytes_u128;
use crate::bytes::keep_low_bytes_u32;
use crate::bytes::keep_low_bytes_u64;
use crate::bytes::load_le_u128;
use crate::bytes::load_le_u32;
use crate::bytes::load_le_u64;
use crate::bytes::significant_bytes_u128;
use crate::bytes::significant_bytes_u64;
use crate::bytes::stored_count;
use crate::bytes::store_le_u128;
use crate::bytes::store_le_u32;
use crate::bytes::store_le_u64;
use crate::format::canonical;
use crate::format::counted;
use crate::format::decoded;
use crate::format::le_bytes;
use crate::lemmas::lemma_byte_len_range;
use crate::lemmas::lemma_le_value_mod;
use crate::lemmas::lemma_le_value_prefix;
use crate::lemmas::lemma_pow256_values;
use crate::format::minimal_len;
use crate::format::prefix_len;
use crate::packed::decode_packed;
use crate::packed::encode_packed;

verus! {

/// Encodes `value` at the start of `buf` in the shortest layout that holds
/// it, and returns the length of the encoding.
#[must_use]
pub fn encode_u32(buf: &mut [u8; 5], value: u32) -> (len: usize)
    ensures
        len == minimal_len(value as nat),
        1 <= len <= 5,
        final(buf)@.subrange(0, len as int) == canonical(value as nat),
{
    if value < 0x10000000 {
        return encode_packed(buf, value);
    }
    store_le_u32(buf, 1, value);
    buf[0] = 0xF3;
    proof {
        lemma_pow256_values();
        lemma_byte_len_range(value as nat, 4);
        assert(buf@.subrange(1, 5) == le_bytes(value as nat, 4));
        assert(buf@.subrange(0, 5) =~= counted(value as nat, 4));
    }
    5
}

/// Encodes `value` at the start of `buf` in the shortest layout that holds
/// it, and returns the length of the encoding.
#[must_use]
pub fn encode_u64(buf: &mut [u8; 9], value: u64) -> (len: usize)
    ensures
        len == minimal_len(value as nat),
        1 <= len <= 9,
        final(buf)@.subrange(0, len as int) == canonical(value as nat),
{
    if value < 0x10000000 {
        return encode_packed(buf, value as u32);
    }
    store_le_u64(buf, 1, value);
    let count: u8 = significant_bytes_u64(value);
    buf[0] = counted_prefix(count);
    proof {
        let stored = buf@.subrange(1, 9);
        assert(stored == le_bytes(value as nat, 8));
        assert forall|i: int| 1 <= i <= count implies buf@[i] == le_bytes(
            value as nat,
            count as nat,
        )[i - 1] by {
            assert(buf@[i] == stored[i - 1]);
        }
        assert(buf@.subrange(0, count + 1) =~= counted(value as nat, count as nat));
    }
    (count + 1) as usize
}

/// Encodes `value` at the start of `buf` in the shortest layout that holds
/// it, and returns the length of the encoding.
#[must_use]
pub fn encode_u128(buf: &mut [u8; 17], value: u128) -> (len: usize)
    ensures
        len == minimal_len(value as nat),
        1 <= len <= 17,
        final(buf)@.subrange(0, len as int) == canonical(value as nat),
{
    if value < 0x10000000 {
        return encode_packed(buf, value as u32);
    }
    store_le_u128(buf, 1, value);
    let count: u8 = significant_bytes_u128(value);
    buf[0] = counted_prefix(count);
    proof {
        let stored = buf@.subrange(1, 17);
        assert(stored == le_bytes(value as nat, 16));
        assert forall|i: int| 1 <= i <= count implies buf@[i] == le_bytes(
            value as nat,
            count as nat,
        )[i - 1] by {
            assert(buf@[i] == stored[i - 1]);
        }
        assert(buf@.subrange(0, count + 1) =~= counted(value as nat, count as nat));
    }
    (count + 1) as usize
}

/// Decodes the encoding at the start of `buf`, and returns the value with
/// the length of the encoding as its first byte gives it.
///
/// In the counted layout the value is made of the payload bytes that the
/// first byte counts, four at most.
#[must_use]
pub fn decode_u32(buf: &[u8; 5]) -> (r: (u32, usize))
    ensures
        r.0 == decoded(buf@, 4),
        r.1 == prefix_len(buf@[0]),
{
    if buf[0] < 0xF0 {
        return decode_packed(buf);
    }
    let count: u8 = stored_count(buf[0]);
    let keep: u8 = if count < 4 {
        count
    } else {
        4
    };
    let raw: u32 = load_le_u32(buf, 1);
    let value: u32 = keep_low_bytes_u32(raw, keep);
    proof {
        let whole = buf@.subrange(1, 5);
        let part = buf@.subrange(1, 1 + keep);
        lemma_pow256_values();
        lemma_le_value_mod(whole, 4, keep as nat);
        lemma_le_value_prefix(whole, part, keep as nat);
    }
    (value, (count + 1) as usize)
}

/// Decodes the encoding at the start of `buf`, and returns the value with
/// the length of the encoding as its first byte gives it.
///
/// In the counted layout the value is made of the payload bytes that the
/// first byte counts; where it counts more than eight, eight fewer.
#[must_use]
pub fn decode_u64(buf: &[u8; 9]) -> (r: (u64, usize))
    ensures
        r.0 == decoded(buf@, 8),
        r.1 == prefix_len(buf@[0]),
{
    if buf[0] < 0xF0 {
        let (value, len) = decode_packed(buf);
        return (value as u64, len);
    }
    let count: u8 = stored_count(buf[0]);
    let stored: u8 = count - 1;
    let low: u8 = stored & 0b111;
    assert(low == stored % 8) by (bit_vector)
        requires
            low == stored & 0b111,
    ;
    let keep: u8 = low + 1;
    let raw: u64 = load_le_u64(buf, 1);
    let value: u64 = keep_low_bytes_u64(raw, keep);
    proof {
        let whole = buf@.subrange(1, 9);
        let part = buf@.subrange(1, 1 + keep);
        lemma_le_value_mod(whole, 8, keep as nat);
        lemma_le_value_prefix(whole, part, keep as nat);
    }
    (value, (count + 1) as usize)
}

/// Decodes the encoding at the start of `buf`, and returns the value with
/// the length of the encoding as its first byte gives it.
#[must_use]
pub fn decode_u128(buf: &[u8; 17]) -> (r: (u128, usize))
    ensures
        r.0 == decoded(buf@, 16),
        r.1 == prefix_len(buf@[0]),
{
    if buf[0] < 0xF0 {
        let (value, len) = decode_packed(buf);
        return (value as u128, len);
    }
    let count: u8 = stored_count(buf[0]);
    let raw: u128 = load_le_u128(buf, 1);
    let value: u128 = keep_low_bytes_u128(raw, count);
    proof {
        let whole = buf@.subrange(1, 17);
        let part = buf@.subrange(1, 1 + count);
        lemma_le_value_mod(whole, 16, count as nat);
        lemma_le_value_prefix(whole, part, count as nat);
    }
    (value, (count + 1) as usize)
}

} // verus!
