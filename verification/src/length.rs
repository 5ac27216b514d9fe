//! Inspecting the first byte of an encoding.

use vstd::prelude::*;
use crate::format::prefix_len;

verus! {

/// Returns the total length of the encoding that starts with the byte `b`.
#[must_use]
pub fn encoded_len(b: u8) -> (len: usize)
    ensures
        len == prefix_len(b),
        1 <= len <= 17,
{
    if b < 0b10000000 {
        return 1;
    }
    if b < 0b11000000 {
        return 2;
    }
    if b < 0b11100000 {
        return 3;
    }
    if b < 0b11110000 {
        return 4;
    }
    let low: u8 = b & 0x0F;
    assert(low == b - 0xF0) by (bit_vector)
        requires
            b >= 0xF0,
            low == b & 0x0F,
    ;
    (low + 2) as usize
}

} // verus!
