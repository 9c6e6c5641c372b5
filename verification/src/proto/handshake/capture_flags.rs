//! Capture backend flags (bitmask).

use vstd::prelude::*;

verus! {

/// wlr-screencopy protocol (wlroots).
pub const WLR_SCREENCOPY: u8 = 1;

/// ext-image-capture-source-v1 protocol.
pub const EXT_IMAGE_CAPTURE: u8 = 2;

/// XDG Desktop Portal screen-cast.
pub const PORTAL: u8 = 4;

/// No two capture flags share a bit.
pub proof fn law_capture_flags_are_disjoint()
    ensures
        WLR_SCREENCOPY & EXT_IMAGE_CAPTURE == 0,
        WLR_SCREENCOPY & PORTAL == 0,
        EXT_IMAGE_CAPTURE & PORTAL == 0,
{
    assert(1u8 & 2u8 == 0) by (bit_vector);
    assert(1u8 & 4u8 == 0) by (bit_vector);
    assert(2u8 & 4u8 == 0) by (bit_vector);
}

} // verus!
