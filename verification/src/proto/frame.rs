//! Frame metadata, damage regions, and wire-area descriptors.

use vstd::prelude::*;

use crate::proto::wire;

verus! {

/// Frame payload wire header: dimensions + number of damage regions.
///
/// Sent at the start of every `FrameUpdate` / `AnchorFrame` payload,
/// followed by `num_regions` [`WireRegion`] descriptors and the compressed data.
#[derive(Debug, Clone, Copy)]
pub struct FrameMeta {
    /// Frame width in pixels.
    pub width: u32,
    /// Frame height in pixels.
    pub height: u32,
    /// Row stride in bytes.
    pub stride: u32,
    /// Number of [`WireRegion`] descriptors following this header.
    pub num_regions: u32,
}

impl FrameMeta {
    /// Size of `FrameMeta` in bytes (always 16).
    pub const SIZE: usize = 16;

    /// The 16 bytes on the wire.
    pub open spec fn wire(self) -> Seq<u8> {
        wire::le32(self.width) + wire::le32(self.height) + wire::le32(self.stride) + wire::le32(self.num_regions)
    }

    /// The value that the first 16 bytes of `s` stand for.
    pub open spec fn decode(s: Seq<u8>) -> FrameMeta {
        FrameMeta {
            width: wire::u32_at(s, 0),
            height: wire::u32_at(s, 4),
            stride: wire::u32_at(s, 8),
            num_regions: wire::u32_at(s, 12),
        }
    }

    /// Create a new `FrameMeta` with the given dimensions.
    #[must_use]
    pub fn new(width: u32, height: u32, stride: u32, num_regions: u32) -> (r: FrameMeta)
        ensures
            r == (FrameMeta { width, height, stride, num_regions }),
    {
        FrameMeta { width, height, stride, num_regions }
    }

    /// The bytes as they go on the wire.
    pub fn as_bytes(&self) -> (r: Vec<u8>)
        ensures
            r@ == self.wire(),
            r@.len() == 16,
    {
        let mut out: Vec<u8> = Vec::with_capacity(16);
        wire::put32(&mut out, self.width);
        wire::put32(&mut out, self.height);
        wire::put32(&mut out, self.stride);
        wire::put32(&mut out, self.num_regions);
        assert(out@ =~= self.wire());
        out
    }

    /// Read the value from exactly 16 bytes; any other length is refused.
    pub fn read_from_bytes(bytes: &[u8]) -> (r: Option<FrameMeta>)
        ensures
            r == if bytes@.len() == 16 {
                Some(FrameMeta::decode(bytes@))
            } else {
                None
            },
    {
        if bytes.len() != 16 {
            return None;
        }
        Some(
            FrameMeta {
                width: wire::get32(bytes, 0),
                height: wire::get32(bytes, 4),
                stride: wire::get32(bytes, 8),
                num_regions: wire::get32(bytes, 12),
            },
        )
    }
}

/// Frame metadata read back from bytes that start with its wire form is the same.
pub proof fn law_frame_meta_decode_of_wire(v: FrameMeta, rest: Seq<u8>)
    ensures
        v.wire().len() == 16,
        FrameMeta::decode(v.wire() + rest) == v,
{
    let s = v.wire() + rest;
    assert(s.subrange(0, 4) =~= wire::le32(v.width));
    wire::lemma_u32_at(s, 0, v.width);
    assert(s.subrange(4, 8) =~= wire::le32(v.height));
    wire::lemma_u32_at(s, 4, v.height);
    assert(s.subrange(8, 12) =~= wire::le32(v.stride));
    wire::lemma_u32_at(s, 8, v.stride);
    assert(s.subrange(12, 16) =~= wire::le32(v.num_regions));
    wire::lemma_u32_at(s, 12, v.num_regions);
}

/// Any 16 bytes are the wire form of what they decode to.
pub proof fn law_frame_meta_wire_of_decode(s: Seq<u8>)
    requires
        s.len() >= 16,
    ensures
        FrameMeta::decode(s).wire() == s.subrange(0, 16),
{
    wire::lemma_le32_of_u32_at(s, 0);
    wire::lemma_le32_of_u32_at(s, 4);
    wire::lemma_le32_of_u32_at(s, 8);
    wire::lemma_le32_of_u32_at(s, 12);
    assert(FrameMeta::decode(s).wire() =~= s.subrange(0, 16));
}

/// Per-region descriptor: rectangle coordinates + compressed blob size.
#[derive(Debug, Clone, Copy)]
pub struct WireRegion {
    /// Left edge of the dirty rectangle, in pixels.
    pub x: u32,
    /// Top edge of the dirty rectangle, in pixels.
    pub y: u32,
    /// Width of the dirty rectangle, in pixels.
    pub w: u32,
    /// Height of the dirty rectangle, in pixels.
    pub h: u32,
    /// Size of the compressed payload for this region.
    pub compressed_size: u32,
}

impl WireRegion {
    /// Size of `WireRegion` in bytes (always 20).
    pub const SIZE: usize = 20;

    /// The 20 bytes on the wire.
    pub open spec fn wire(self) -> Seq<u8> {
        wire::le32(self.x) + wire::le32(self.y) + wire::le32(self.w) + wire::le32(self.h) + wire::le32(self.compressed_size)
    }

    /// The value that the first 20 bytes of `s` stand for.
    pub open spec fn decode(s: Seq<u8>) -> WireRegion {
        WireRegion {
            x: wire::u32_at(s, 0),
            y: wire::u32_at(s, 4),
            w: wire::u32_at(s, 8),
            h: wire::u32_at(s, 12),
            compressed_size: wire::u32_at(s, 16),
        }
    }

    /// Create a new `WireRegion` descriptor.
    #[must_use]
    pub fn new(x: u32, y: u32, w: u32, h: u32, compressed_size: u32) -> (r: WireRegion)
        ensures
            r == (WireRegion { x, y, w, h, compressed_size }),
    {
        WireRegion { x, y, w, h, compressed_size }
    }

    /// The bytes as they go on the wire.
    pub fn as_bytes(&self) -> (r: Vec<u8>)
        ensures
            r@ == self.wire(),
            r@.len() == 20,
    {
        let mut out: Vec<u8> = Vec::with_capacity(20);
        wire::put32(&mut out, self.x);
        wire::put32(&mut out, self.y);
        wire::put32(&mut out, self.w);
        wire::put32(&mut out, self.h);
        wire::put32(&mut out, self.compressed_size);
        assert(out@ =~= self.wire());
        out
    }

    /// Read the value from exactly 20 bytes; any other length is refused.
    pub fn read_from_bytes(bytes: &[u8]) -> (r: Option<WireRegion>)
        ensures
            r == if bytes@.len() == 20 {
                Some(WireRegion::decode(bytes@))
            } else {
                None
            },
    {
        if bytes.len() != 20 {
            return None;
        }
        Some(
            WireRegion {
                x: wire::get32(bytes, 0),
                y: wire::get32(bytes, 4),
                w: wire::get32(bytes, 8),
                h: wire::get32(bytes, 12),
                compressed_size: wire::get32(bytes, 16),
            },
        )
    }
}

/// A region descriptor read back from bytes that start with its wire form is the same.
pub proof fn law_wire_region_decode_of_wire(v: WireRegion, rest: Seq<u8>)
    ensures
        v.wire().len() == 20,
        WireRegion::decode(v.wire() + rest) == v,
{
    let s = v.wire() + rest;
    assert(s.subrange(0, 4) =~= wire::le32(v.x));
    wire::lemma_u32_at(s, 0, v.x);
    assert(s.subrange(4, 8) =~= wire::le32(v.y));
    wire::lemma_u32_at(s, 4, v.y);
    assert(s.subrange(8, 12) =~= wire::le32(v.w));
    wire::lemma_u32_at(s, 8, v.w);
    assert(s.subrange(12, 16) =~= wire::le32(v.h));
    wire::lemma_u32_at(s, 12, v.h);
    assert(s.subrange(16, 20) =~= wire::le32(v.compressed_size));
    wire::lemma_u32_at(s, 16, v.compressed_size);
}

/// Any 20 bytes are the wire form of what they decode to.
pub proof fn law_wire_region_wire_of_decode(s: Seq<u8>)
    requires
        s.len() >= 20,
    ensures
        WireRegion::decode(s).wire() == s.subrange(0, 20),
{
    wire::lemma_le32_of_u32_at(s, 0);
    wire::lemma_le32_of_u32_at(s, 4);
    wire::lemma_le32_of_u32_at(s, 8);
    wire::lemma_le32_of_u32_at(s, 12);
    wire::lemma_le32_of_u32_at(s, 16);
    assert(WireRegion::decode(s).wire() =~= s.subrange(0, 20));
}

} // verus!
