//! Surface / buffer resize notification events.

use vstd::prelude::*;

use crate::proto::wire;

verus! {

/// Surface resize notification (12 bytes).
///
/// Sent when a surface changes dimensions, either because:
/// - The server detects an output/window resize
/// - The client's local window was resized by the compositor
#[derive(Debug, Clone, Copy)]
pub struct ResizePayload {
    /// Surface that changes.
    pub surface_id: u16,
    /// Alignment padding; always zero.
    pub _pad: u16,
    /// New width in pixels.
    pub width: u32,
    /// New height in pixels.
    pub height: u32,
}

impl ResizePayload {
    /// Size of `ResizePayload` in bytes (always 12).
    pub const SIZE: usize = 12;

    /// The 12 bytes on the wire.
    pub open spec fn wire(self) -> Seq<u8> {
        wire::le16(self.surface_id) + wire::le16(self._pad) + wire::le32(self.width) + wire::le32(self.height)
    }

    /// The value that the first 12 bytes of `s` stand for.
    pub open spec fn decode(s: Seq<u8>) -> ResizePayload {
        ResizePayload {
            surface_id: wire::u16_at(s, 0),
            _pad: wire::u16_at(s, 2),
            width: wire::u32_at(s, 4),
            height: wire::u32_at(s, 8),
        }
    }

    /// Create a new resize notification.
    #[must_use]
    pub fn new(surface_id: u16, width: u32, height: u32) -> (r: ResizePayload)
        ensures
            r == (ResizePayload { surface_id, _pad: 0, width, height }),
    {
        ResizePayload { surface_id, _pad: 0, width, height }
    }

    /// The bytes as they go on the wire.
    pub fn as_bytes(&self) -> (r: Vec<u8>)
        ensures
            r@ == self.wire(),
            r@.len() == 12,
    {
        let mut out: Vec<u8> = Vec::with_capacity(12);
        wire::put16(&mut out, self.surface_id);
        wire::put16(&mut out, self._pad);
        wire::put32(&mut out, self.width);
        wire::put32(&mut out, self.height);
        assert(out@ =~= self.wire());
        out
    }

    /// Read the value from exactly 12 bytes; any other length is refused.
    pub fn read_from_bytes(bytes: &[u8]) -> (r: Option<ResizePayload>)
        ensures
            r == if bytes@.len() == 12 {
                Some(ResizePayload::decode(bytes@))
            } else {
                None
            },
    {
        if bytes.len() != 12 {
            return None;
        }
        Some(
            ResizePayload {
                surface_id: wire::get16(bytes, 0),
                _pad: wire::get16(bytes, 2),
                width: wire::get32(bytes, 4),
                height: wire::get32(bytes, 8),
            },
        )
    }
}

/// A resize notification read back from bytes that start with its wire form is the same.
pub proof fn law_resize_decode_of_wire(v: ResizePayload, rest: Seq<u8>)
    ensures
        v.wire().len() == 12,
        ResizePayload::decode(v.wire() + rest) == v,
{
    let s = v.wire() + rest;
    assert(s.subrange(0, 2) =~= wire::le16(v.surface_id));
    wire::lemma_u16_at(s, 0, v.surface_id);
    assert(s.subrange(2, 4) =~= wire::le16(v._pad));
    wire::lemma_u16_at(s, 2, v._pad);
    assert(s.subrange(4, 8) =~= wire::le32(v.width));
    wire::lemma_u32_at(s, 4, v.width);
    assert(s.subrange(8, 12) =~= wire::le32(v.height));
    wire::lemma_u32_at(s, 8, v.height);
}

/// Any 12 bytes are the wire form of what they decode to.
pub proof fn law_resize_wire_of_decode(s: Seq<u8>)
    requires
        s.len() >= 12,
    ensures
        ResizePayload::decode(s).wire() == s.subrange(0, 12),
{
    wire::lemma_le16_of_u16_at(s, 0);
    wire::lemma_le16_of_u16_at(s, 2);
    wire::lemma_le32_of_u32_at(s, 4);
    wire::lemma_le32_of_u32_at(s, 8);
    assert(ResizePayload::decode(s).wire() =~= s.subrange(0, 12));
}

} // verus!
