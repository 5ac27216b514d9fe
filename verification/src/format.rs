//! The wire format as a mathematical model: which bytes stand for which
//! number.
//!
//! An encoding has one of three layouts, told apart by the high bits of its
//! first byte:
//!
//! * `0xxxxxxx`: the value itself, in one byte;
//! * `10xxxxxx`, `110xxxxx`, `1110xxxx`: a packed layout of two, three or
//!   four bytes, whose value bits start in the low bits of the first byte and
//!   go on through the following bytes, low bits first;
//! * `1111nnnn`: a counted layout, `nnnn + 1` payload bytes that hold the
//!   value in little-endian order.

use vstd::prelude::*;

verus! {

/// 256 to the power `n`.
pub open spec fn pow256(n: nat) -> nat
    decreases n,
{
    if n == 0 {
        1
    } else {
        256 * pow256((n - 1) as nat)
    }
}

/// The number of bytes needed to write `v` in base 256, at least one.
pub open spec fn byte_len(v: nat) -> nat
    decreases v,
{
    if v < 256 {
        1
    } else {
        1 + byte_len(v / 256)
    }
}

/// The first `n` bytes of `v` in little-endian order.
pub open spec fn le_bytes(v: nat, n: nat) -> Seq<u8> {
    Seq::new(n, |i: int| ((v / pow256(i as nat)) % 256) as u8)
}

/// The number that the first `n` bytes of `s` spell in little-endian order.
pub open spec fn le_value(s: Seq<u8>, n: nat) -> nat
    recommends
        n <= s.len(),
    decreases n,
{
    if n == 0 {
        0
    } else {
        le_value(s, (n - 1) as nat) + s[n - 1] as nat * pow256((n - 1) as nat)
    }
}

/// The total length of an encoding, read off its first byte.
pub open spec fn prefix_len(b0: u8) -> nat {
    if b0 < 0x80 {
        1
    } else if b0 < 0xC0 {
        2
    } else if b0 < 0xE0 {
        3
    } else if b0 < 0xF0 {
        4
    } else {
        (b0 - 0xF0 + 2) as nat
    }
}

/// The first value that the packed layout of `k` bytes cannot hold: two to
/// the power `7 * k`.
pub open spec fn packed_limit(k: nat) -> nat
    recommends
        1 <= k <= 4,
{
    if k == 1 {
        0x80
    } else if k == 2 {
        0x4000
    } else if k == 3 {
        0x20_0000
    } else {
        0x1000_0000
    }
}

/// The packed layout of `k` bytes for `v`. For `k == 1` it is the value
/// itself.
pub open spec fn packed(v: nat, k: nat) -> Seq<u8>
    recommends
        1 <= k <= 4,
        v < packed_limit(k),
{
    if k == 1 {
        seq![v as u8]
    } else if k == 2 {
        seq![(0x80 + v % 0x40) as u8, (v / 0x40) as u8]
    } else if k == 3 {
        seq![(0xC0 + v % 0x20) as u8, (v / 0x20 % 0x100) as u8, (v / 0x2000) as u8]
    } else {
        seq![
            (0xE0 + v % 0x10) as u8,
            (v / 0x10 % 0x100) as u8,
            (v / 0x1000 % 0x100) as u8,
            (v / 0x10_0000) as u8,
        ]
    }
}

/// The counted layout with `n` payload bytes for `v`.
pub open spec fn counted(v: nat, n: nat) -> Seq<u8>
    recommends
        1 <= n <= 16,
        v < pow256(n),
{
    seq![(0xF0 + n - 1) as u8] + le_bytes(v, n)
}

/// The length of the shortest encoding of `v`.
pub open spec fn minimal_len(v: nat) -> nat {
    if v < 0x80 {
        1
    } else if v < 0x4000 {
        2
    } else if v < 0x20_0000 {
        3
    } else if v < 0x1000_0000 {
        4
    } else {
        byte_len(v) + 1
    }
}

/// The encoding that the encoders write: the shortest one. Below two to the
/// power 28 it is packed, from there on counted.
pub open spec fn canonical(v: nat) -> Seq<u8>
    recommends
        v < pow256(16),
{
    if v < 0x1000_0000 {
        packed(v, minimal_len(v))
    } else {
        counted(v, byte_len(v))
    }
}

/// The value of a buffer whose first byte is below `0xF0`: a single byte or
/// a packed layout.
pub open spec fn packed_value(s: Seq<u8>) -> nat
    recommends
        s.len() >= 4,
        s[0] < 0xF0,
{
    let b0 = s[0];
    if b0 < 0x80 {
        b0 as nat
    } else if b0 < 0xC0 {
        ((b0 - 0x80) + 0x40 * s[1]) as nat
    } else if b0 < 0xE0 {
        ((b0 - 0xC0) + 0x20 * s[1] + 0x2000 * s[2]) as nat
    } else {
        ((b0 - 0xE0) + 0x10 * s[1] + 0x1000 * s[2] + 0x10_0000 * s[3]) as nat
    }
}

/// The number of payload bytes that a decoder of `width` bytes (4, 8 or 16)
/// takes into the value, for a first byte `b0` of the counted layout. It is
/// the count that `b0` stores wherever the width can hold that many bytes.
/// Of a count beyond the width the 32-bit decoder takes four bytes, and the
/// 64-bit decoder eight fewer than are counted.
pub open spec fn payload_len(b0: u8, width: nat) -> nat
    recommends
        b0 >= 0xF0,
        width == 4 || width == 8 || width == 16,
{
    let stored = (b0 - 0xF0 + 1) as nat;
    if width == 4 {
        if stored < 4 {
            stored
        } else {
            4
        }
    } else if width == 8 {
        ((stored - 1) % 8 + 1) as nat
    } else {
        stored
    }
}

/// What a decoder of `width` bytes (4, 8 or 16) reads from `s`. Only the
/// bytes of the encoding count: whatever follows them in `s` has no part in
/// the value.
pub open spec fn decoded(s: Seq<u8>, width: nat) -> nat
    recommends
        s.len() >= width + 1,
        width == 4 || width == 8 || width == 16,
{
    if s[0] < 0xF0 {
        packed_value(s)
    } else {
        le_value(s.subrange(1, 1 + payload_len(s[0], width) as int), payload_len(s[0], width))
    }
}

} // verus!
