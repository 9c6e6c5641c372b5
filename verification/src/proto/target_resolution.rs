//! Client-requested downscaling for bandwidth-adaptive streaming.

use vstd::prelude::*;

use crate::proto::wire;

verus! {

/// Client → server request to produce frames at the given resolution.
///
/// Sent after the handshake. The server downscales captured frames to
/// `width × height` before delta encoding and compression, significantly
/// reducing bandwidth when the client doesn't need native resolution.
///
/// A payload with `width = 0` and `height = 0` resets to native resolution.
#[derive(Debug, Clone, Copy)]
pub struct TargetResolutionPayload {
    /// Requested frame width in pixels (0 = native).
    pub width: u32,
    /// Requested frame height in pixels (0 = native).
    pub height: u32,
}

impl TargetResolutionPayload {
    /// Size of `TargetResolutionPayload` in bytes (always 8).
    pub const SIZE: usize = 8;

    /// The 8 bytes on the wire.
    pub open spec fn wire(self) -> Seq<u8> {
        wire::le32(self.width) + wire::le32(self.height)
    }

    /// The value that the first 8 bytes of `s` stand for.
    pub open spec fn decode(s: Seq<u8>) -> TargetResolutionPayload {
        TargetResolutionPayload {
            width: wire::u32_at(s, 0),
            height: wire::u32_at(s, 4),
        }
    }

    /// Create a new target resolution request.
    #[must_use]
    pub fn new(width: u32, height: u32) -> (r: TargetResolutionPayload)
        ensures
            r == (TargetResolutionPayload { width, height }),
    {
        TargetResolutionPayload { width, height }
    }

    /// The bytes as they go on the wire.
    pub fn as_bytes(&self) -> (r: Vec<u8>)
        ensures
            r@ == self.wire(),
            r@.len() == 8,
    {
        let mut out: Vec<u8> = Vec::with_capacity(8);
        wire::put32(&mut out, self.width);
        wire::put32(&mut out, self.height);
        assert(out@ =~= self.wire());
        out
    }

    /// Read the value from exactly 8 bytes; any other length is refused.
    pub fn read_from_bytes(bytes: &[u8]) -> (r: Option<TargetResolutionPayload>)
        ensures
            r == if bytes@.len() == 8 {
                Some(TargetResolutionPayload::decode(bytes@))
            } else {
                None
            },
    {
        if bytes.len() != 8 {
            return None;
        }
        Some(
            TargetResolutionPayload {
                width: wire::get32(bytes, 0),
                height: wire::get32(bytes, 4),
            },
        )
    }
}

/// A resolution request read back from bytes that start with its wire form is the same.
pub proof fn law_target_resolution_decode_of_wire(v: TargetResolutionPayload, rest: Seq<u8>)
    ensures
        v.wire().len() == 8,
        TargetResolutionPayload::decode(v.wire() + rest) == v,
{
    let s = v.wire() + rest;
    assert(s.subrange(0, 4) =~= wire::le32(v.width));
    wire::lemma_u32_at(s, 0, v.width);
    assert(s.subrange(4, 8) =~= wire::le32(v.height));
    wire::lemma_u32_at(s, 4, v.height);
}

/// Any 8 bytes are the wire form of what they decode to.
pub proof fn law_target_resolution_wire_of_decode(s: Seq<u8>)
    requires
        s.len() >= 8,
    ensures
        TargetResolutionPayload::decode(s).wire() == s.subrange(0, 8),
{
    wire::lemma_le32_of_u32_at(s, 0);
    wire::lemma_le32_of_u32_at(s, 4);
    assert(TargetResolutionPayload::decode(s).wire() =~= s.subrange(0, 8));
}

} // verus!
