//! Signed integers, by way of the zigzag mapping onto the unsigned integers
//! of the same width: 0, -1, 1, -2, 2, ... become 0, 1, 2, 3, 4, ...

use vstd::prelude::*;
use crate::format::canonical;
use crate::format::decoded;
use crate::format::minimal_len;
use crate::format::prefix_len;
use crate::unsigned::decode_u128;
use crate::unsigned::decode_u32;
use crate::unsigned::decode_u64;
use crate::unsigned::encode_u128;
use crate::unsigned::encode_u32;
use crate::unsigned::encode_u64;

verus! {

/// The place of `v` in the row 0, -1, 1, -2, 2, ...
pub open spec fn zigzag(v: int) -> nat {
    if v >= 0 {
        (2 * v) as nat
    } else {
        (-2 * v - 1) as nat
    }
}

/// The integer at place `z` of the row 0, -1, 1, -2, 2, ...
pub open spec fn unzigzag(z: nat) -> int {
    if z % 2 == 0 {
        z as int / 2
    } else {
        -(z as int / 2) - 1
    }
}

/// Maps a signed value to its place in the zigzag row.
pub fn zigzag_i32(value: i32) -> (zz: u32)
    ensures
        zz == zigzag(value as int),
{
    let zz: u32 = (#[verifier::truncate] ((value >> 31) as u32)) ^ (#[verifier::truncate] ((value
        << 1) as u32));
    assert((value >= 0 ==> zz == 2 * value) && (value < 0 ==> zz == -2 * value - 1))
        by (bit_vector)
        requires
            zz == ((value >> 31) as u32) ^ ((value << 1) as u32),
    ;
    zz
}

/// Maps a place in the zigzag row back to the signed value.
pub fn unzigzag_i32(zz: u32) -> (value: i32)
    ensures
        value == unzigzag(zz as nat),
{
    let high: u32 = zz >> 1;
    let low: u32 = zz & 1;
    assert(high <= 0x7FFF_FFFF && low <= 1) by (bit_vector)
        requires
            high == zz >> 1,
            low == zz & 1,
    ;
    let half: i32 = high as i32;
    let sign: i32 = -(low as i32);
    let value: i32 = half ^ sign;
    assert((zz % 2 == 0 ==> value == zz / 2) && (zz % 2 != 0 ==> value == -(zz / 2) - 1))
        by (bit_vector)
        requires
            half == (zz >> 1) as i32,
            (zz & 1) <= 1,
            sign == -((zz & 1) as i32),
            value == half ^ sign,
    ;
    value
}

/// Maps a signed value to its place in the zigzag row.
pub fn zigzag_i64(value: i64) -> (zz: u64)
    ensures
        zz == zigzag(value as int),
{
    let zz: u64 = (#[verifier::truncate] ((value >> 63) as u64)) ^ (#[verifier::truncate] ((value
        << 1) as u64));
    assert((value >= 0 ==> zz == 2 * value) && (value < 0 ==> zz == -2 * value - 1))
        by (bit_vector)
        requires
            zz == ((value >> 63) as u64) ^ ((value << 1) as u64),
    ;
    zz
}

/// Maps a place in the zigzag row back to the signed value.
pub fn unzigzag_i64(zz: u64) -> (value: i64)
    ensures
        value == unzigzag(zz as nat),
{
    let high: u64 = zz >> 1;
    let low: u64 = zz & 1;
    assert(high <= 0x7FFF_FFFF_FFFF_FFFF && low <= 1) by (bit_vector)
        requires
            high == zz >> 1,
            low == zz & 1,
    ;
    let half: i64 = high as i64;
    let sign: i64 = -(low as i64);
    let value: i64 = half ^ sign;
    assert((zz % 2 == 0 ==> value == zz / 2) && (zz % 2 != 0 ==> value == -(zz / 2) - 1))
        by (bit_vector)
        requires
            half == (zz >> 1) as i64,
            (zz & 1) <= 1,
            sign == -((zz & 1) as i64),
            value == half ^ sign,
    ;
    value
}

/// Maps a signed value to its place in the zigzag row.
pub fn zigzag_i128(value: i128) -> (zz: u128)
    ensures
        zz == zigzag(value as int),
{
    let zz: u128 = (#[verifier::truncate] ((value >> 127) as u128)) ^ (#[verifier::truncate] ((value
        << 1) as u128));
    assert((value >= 0 ==> zz == 2 * value) && (value < 0 ==> zz == -2 * value - 1))
        by (bit_vector)
        requires
            zz == ((value >> 127) as u128) ^ ((value << 1) as u128),
    ;
    zz
}

/// Maps a place in the zigzag row back to the signed value.
pub fn unzigzag_i128(zz: u128) -> (value: i128)
    ensures
        value == unzigzag(zz as nat),
{
    let high: u128 = zz >> 1;
    let low: u128 = zz & 1;
    assert(high <= 0x7FFF_FFFF_FFFF_FFFF_FFFF_FFFF_FFFF_FFFF && low <= 1) by (bit_vector)
        requires
            high == zz >> 1,
            low == zz & 1,
    ;
    let half: i128 = high as i128;
    let sign: i128 = -(low as i128);
    let value: i128 = half ^ sign;
    assert((zz % 2 == 0 ==> value == zz / 2) && (zz % 2 != 0 ==> value == -(zz / 2) - 1))
        by (bit_vector)
        requires
            half == (zz >> 1) as i128,
            (zz & 1) <= 1,
            sign == -((zz & 1) as i128),
            value == half ^ sign,
    ;
    value
}

/// Encodes `value` at the start of `buf`, as the unsigned encoder does for
/// its place in the zigzag row, and returns the length of the encoding.
#[must_use]
pub fn encode_i32(buf: &mut [u8; 5], value: i32) -> (len: usize)
    ensures
        len == minimal_len(zigzag(value as int)),
        1 <= len <= 5,
        final(buf)@.subrange(0, len as int) == canonical(zigzag(value as int)),
{
    encode_u32(buf, zigzag_i32(value))
}

/// Decodes the encoding at the start of `buf` as the unsigned decoder does,
/// and returns the signed value at that place of the zigzag row with the
/// length of the encoding.
#[must_use]
pub fn decode_i32(buf: &[u8; 5]) -> (r: (i32, usize))
    ensures
        r.0 == unzigzag(decoded(buf@, 4)),
        r.1 == prefix_len(buf@[0]),
{
    let (zz, len) = decode_u32(buf);
    (unzigzag_i32(zz), len)
}

/// Encodes `value` at the start of `buf`, as the unsigned encoder does for
/// its place in the zigzag row, and returns the length of the encoding.
#[must_use]
pub fn encode_i64(buf: &mut [u8; 9], value: i64) -> (len: usize)
    ensures
        len == minimal_len(zigzag(value as int)),
        1 <= len <= 9,
        final(buf)@.subrange(0, len as int) == canonical(zigzag(value as int)),
{
    encode_u64(buf, zigzag_i64(value))
}

/// Decodes the encoding at the start of `buf` as the unsigned decoder does,
/// and returns the signed value at that place of the zigzag row with the
/// length of the encoding.
#[must_use]
pub fn decode_i64(buf: &[u8; 9]) -> (r: (i64, usize))
    ensures
        r.0 == unzigzag(decoded(buf@, 8)),
        r.1 == prefix_len(buf@[0]),
{
    let (zz, len) = decode_u64(buf);
    (unzigzag_i64(zz), len)
}

/// Encodes `value` at the start of `buf`, as the unsigned encoder does for
/// its place in the zigzag row, and returns the length of the encoding.
#[must_use]
pub fn encode_i128(buf: &mut [u8; 17], value: i128) -> (len: usize)
    ensures
        len == minimal_len(zigzag(value as int)),
        1 <= len <= 17,
        final(buf)@.subrange(0, len as int) == canonical(zigzag(value as int)),
{
    encode_u128(buf, zigzag_i128(value))
}

/// Decodes the encoding at the start of `buf` as the unsigned decoder does,
/// and returns the signed value at that place of the zigzag row with the
/// length of the encoding.
#[must_use]
pub fn decode_i128(buf: &[u8; 17]) -> (r: (i128, usize))
    ensures
        r.0 == unzigzag(decoded(buf@, 16)),
        r.1 == prefix_len(buf@[0]),
{
    let (zz, len) = decode_u128(buf);
    (unzigzag_i128(zz), len)
}

} // verus!
