//! Compression algorithm flags (bitmask).

use vstd::prelude::*;

verus! {

/// No compression: the empty set of algorithms.
pub const NONE: u8 = 0;

/// LZ4 fast compression.
pub const LZ4: u8 = 1;

/// Zstandard compression (higher ratio).
pub const ZSTD: u8 = 2;

/// The two algorithms share no bit, and `NONE` holds neither.
pub proof fn law_compress_flags_are_disjoint()
    ensures
        LZ4 & ZSTD == 0,
        NONE & LZ4 == 0,
        NONE & ZSTD == 0,
{
    assert(1u8 & 2u8 == 0) by (bit_vector);
    assert(0u8 & 1u8 == 0) by (bit_vector);
    assert(0u8 & 2u8 == 0) by (bit_vector);
}

} // verus!
