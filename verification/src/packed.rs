//! The layouts of one to four bytes, which every width shares.

use vstd::prelude::*;
use crate::format::minimal_len;
use crate::format::packed;
use crate::format::packed_value;
use crate::format::prefix_len;

verus! {

/// Writes the layout of one to four bytes for `value` at the start of `buf`,
/// the shortest that holds it, and returns its length. The rest of `buf`
/// stays as it was.
pub fn encode_packed<const N: usize>(buf: &mut [u8; N], value: u32) -> (len: usize)
    requires
        N >= 4,
        value < 0x1000_0000,
    ensures
        len == minimal_len(value as nat),
        1 <= len <= 4,
        final(buf)@.subrange(0, len as int) == packed(value as nat, len as nat),
        final(buf)@.subrange(len as int, N as int) == old(buf)@.subrange(len as int, N as int),
{
    let mut x: u32 = value;
    if x < 0x80 {
        buf[0] = x as u8;
        assert(buf@.subrange(0, 1) =~= packed(value as nat, 1));
        assert(buf@.subrange(1, N as int) =~= old(buf)@.subrange(1, N as int));
        return 1;
    }
    if x < 0x00004000 {
        assert(0x80u8 | (((x << 2) as u8) >> 2) == 0x80 + x % 0x40 && ((x << 2) >> 8) as u8 == x
            / 0x40) by (bit_vector)
            requires
                x < 0x4000,
        ;
        x <<= 2;
        buf[0] = 0x80 | ((#[verifier::truncate] (x as u8)) >> 2);
        buf[1] = (x >> 8) as u8;
        assert(buf@.subrange(0, 2) =~= packed(value as nat, 2));
        assert(buf@.subrange(2, N as int) =~= old(buf)@.subrange(2, N as int));
        return 2;
    }
    if x < 0x00200000 {
        assert(0xC0u8 | (((x << 3) as u8) >> 3) == 0xC0 + x % 0x20 && ((x << 3) >> 8) as u8 == x
            / 0x20 % 0x100 && ((x << 3) >> 16) as u8 == x / 0x2000) by (bit_vector)
            requires
                x < 0x20_0000,
        ;
        x <<= 3;
        buf[0] = 0xC0 | ((#[verifier::truncate] (x as u8)) >> 3);
        buf[1] = #[verifier::truncate] ((x >> 8) as u8);
        buf[2] = (x >> 16) as u8;
        assert(buf@.subrange(0, 3) =~= packed(value as nat, 3));
        assert(buf@.subrange(3, N as int) =~= old(buf)@.subrange(3, N as int));
        return 3;
    }
    assert(0xE0u8 | (((x << 4) as u8) >> 4) == 0xE0 + x % 0x10 && ((x << 4) >> 8) as u8 == x / 0x10
        % 0x100 && ((x << 4) >> 16) as u8 == x / 0x1000 % 0x100 && ((x << 4) >> 24) as u8 == x
        / 0x10_0000) by (bit_vector)
        requires
            x < 0x1000_0000,
    ;
    x <<= 4;
    buf[0] = 0xE0 | ((#[verifier::truncate] (x as u8)) >> 4);
    buf[1] = #[verifier::truncate] ((x >> 8) as u8);
    buf[2] = #[verifier::truncate] ((x >> 16) as u8);
    buf[3] = (x >> 24) as u8;
    assert(buf@.subrange(0, 4) =~= packed(value as nat, 4));
    assert(buf@.subrange(4, N as int) =~= old(buf)@.subrange(4, N as int));
    4
}

/// Reads the value of a buffer whose first byte is below `0xF0`, a single
/// byte or a packed layout, and returns it with the length of the encoding.
/// Bytes behind the encoding are not looked at.
pub fn decode_packed<const N: usize>(buf: &[u8; N]) -> (r: (u32, usize))
    requires
        N >= 4,
        buf@[0] < 0xF0,
    ensures
        r.0 == packed_value(buf@),
        r.0 < 0x1000_0000,
        r.1 == prefix_len(buf@[0]),
{
    let b0: u8 = buf[0];
    let b1: u8 = buf[1];
    let b2: u8 = buf[2];
    let b3: u8 = buf[3];
    let buf0: u32 = b0 as u32;
    if (b0 & 0x80) == 0 {
        assert(b0 < 0x80) by (bit_vector)
            requires
                b0 & 0x80 == 0,
        ;
        return (buf0, 1);
    }
    if (b0 & 0b01000000) == 0 {
        assert(b0 >= 0x80 && b0 < 0xC0 && (((b1 as u32) << 6) | ((b0 & 0x3F) as u32)) == (b0
            - 0x80) + 0x40 * b1) by (bit_vector)
            requires
                b0 & 0x80 != 0,
                b0 & 0x40 == 0,
        ;
        let low: u8 = b0 & 0x3F;
        let value: u32 = ((b1 as u32) << 6) | (low as u32);
        return (value, 2);
    }
    if (b0 & 0b00100000) == 0 {
        assert(b0 >= 0xC0 && b0 < 0xE0 && (((b2 as u32) << 13) | ((b1 as u32) << 5) | ((b0
            & 0x1F) as u32)) == (b0 - 0xC0) + 0x20 * b1 + 0x2000 * b2) by (bit_vector)
            requires
                b0 & 0x80 != 0,
                b0 & 0x40 != 0,
                b0 & 0x20 == 0,
        ;
        let low: u8 = b0 & 0x1F;
        let value: u32 = ((b2 as u32) << 13) | ((b1 as u32) << 5) | (low as u32);
        return (value, 3);
    }
    assert(b0 >= 0xE0 && (((b3 as u32) << 20) | ((b2 as u32) << 12) | ((b1 as u32) << 4) | ((
    b0 as u32) & 0x0F)) == (b0 - 0xE0) + 0x10 * b1 + 0x1000 * b2 + 0x10_0000 * b3) by (bit_vector)
        requires
            b0 & 0x80 != 0,
            b0 & 0x40 != 0,
            b0 & 0x20 != 0,
            b0 < 0xF0,
    ;
    let value: u32 = ((b3 as u32) << 20) | ((b2 as u32) << 12) | ((b1 as u32) << 4) | (buf0
        & 0x0F);
    (value, 4)
}

} // verus!
