//! Frame flags bitfield.

use vstd::prelude::*;

verus! {

/// Payload is compressed (LZ4 or ZSTD).
pub const COMPRESSED: u8 = 1;

/// This is the final chunk of a multi-chunk frame.
pub const LAST_CHUNK: u8 = 2;

/// This frame is a key-frame (can be decoded independently).
pub const KEY_FRAME: u8 = 4;

/// No two frame flags share a bit.
pub proof fn law_flags_are_disjoint()
    ensures
        COMPRESSED & LAST_CHUNK == 0,
        COMPRESSED & KEY_FRAME == 0,
        LAST_CHUNK & KEY_FRAME == 0,
{
    assert(1u8 & 2u8 == 0) by (bit_vector);
    assert(1u8 & 4u8 == 0) by (bit_vector);
    assert(2u8 & 4u8 == 0) by (bit_vector);
}

} // verus!
