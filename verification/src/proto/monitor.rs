//! Monitor descriptors and fractional-scale hints.

use vstd::prelude::*;

use crate::proto::wire;

verus! {

/// Monitor information sent during handshake (fixed-size header, 24 bytes).
///
/// Each connected output on the server is described by one of these structures.
/// The `stream_id` maps this monitor to frames in the pipeline.
#[derive(Debug, Clone, Copy)]
pub struct MonitorInfo {
    /// Stream ID used in `FrameHeader` for this monitor's frames.
    pub stream_id: u16,
    /// Horizontal position in the compositor coordinate space.
    pub x: i16,
    /// Vertical position in the compositor coordinate space.
    pub y: i16,
    /// Alignment padding; always zero.
    pub _pad: u16,
    /// Width in pixels.
    pub width: u32,
    /// Height in pixels.
    pub height: u32,
    /// Refresh rate in millihertz (e.g. 60000 for 60 Hz).
    pub refresh_mhz: u32,
    /// Integer scale factor (1 or 2 typically).
    pub scale: u32,
}

impl MonitorInfo {
    /// Size of `MonitorInfo` in bytes (always 24).
    pub const SIZE: usize = 24;

    /// The 24 bytes on the wire.
    pub open spec fn wire(self) -> Seq<u8> {
        wire::le16(self.stream_id) + wire::le16(wire::i16_image(self.x)) + wire::le16(wire::i16_image(self.y)) + wire::le16(self._pad) + wire::le32(self.width) + wire::le32(self.height) + wire::le32(self.refresh_mhz) + wire::le32(self.scale)
    }

    /// The value that the first 24 bytes of `s` stand for.
    pub open spec fn decode(s: Seq<u8>) -> MonitorInfo {
        MonitorInfo {
            stream_id: wire::u16_at(s, 0),
            x: wire::i16_of_image(wire::u16_at(s, 2)),
            y: wire::i16_of_image(wire::u16_at(s, 4)),
            _pad: wire::u16_at(s, 6),
            width: wire::u32_at(s, 8),
            height: wire::u32_at(s, 12),
            refresh_mhz: wire::u32_at(s, 16),
            scale: wire::u32_at(s, 20),
        }
    }

    /// Create a new `MonitorInfo` descriptor.
    #[must_use]
    pub fn new(stream_id: u16, x: i16, y: i16, width: u32, height: u32, refresh_mhz: u32, scale: u32) -> (r: MonitorInfo)
        ensures
            r == (MonitorInfo { stream_id, x, y, _pad: 0, width, height, refresh_mhz, scale }),
    {
        MonitorInfo { stream_id, x, y, _pad: 0, width, height, refresh_mhz, scale }
    }

    /// The bytes as they go on the wire.
    pub fn as_bytes(&self) -> (r: Vec<u8>)
        ensures
            r@ == self.wire(),
            r@.len() == 24,
    {
        let mut out: Vec<u8> = Vec::with_capacity(24);
        wire::put16(&mut out, self.stream_id);
        wire::put16(&mut out, wire::image_of_i16(self.x));
        wire::put16(&mut out, wire::image_of_i16(self.y));
        wire::put16(&mut out, self._pad);
        wire::put32(&mut out, self.width);
        wire::put32(&mut out, self.height);
        wire::put32(&mut out, self.refresh_mhz);
        wire::put32(&mut out, self.scale);
        assert(out@ =~= self.wire());
        out
    }

    /// Read the value from exactly 24 bytes; any other length is refused.
    pub fn read_from_bytes(bytes: &[u8]) -> (r: Option<MonitorInfo>)
        ensures
            r == if bytes@.len() == 24 {
                Some(MonitorInfo::decode(bytes@))
            } else {
                None
            },
    {
        if bytes.len() != 24 {
            return None;
        }
        Some(
            MonitorInfo {
                stream_id: wire::get16(bytes, 0),
                x: wire::i16_from_image(wire::get16(bytes, 2)),
                y: wire::i16_from_image(wire::get16(bytes, 4)),
                _pad: wire::get16(bytes, 6),
                width: wire::get32(bytes, 8),
                height: wire::get32(bytes, 12),
                refresh_mhz: wire::get32(bytes, 16),
                scale: wire::get32(bytes, 20),
            },
        )
    }
}

/// Monitor information read back from bytes that start with its wire form is the same.
pub proof fn law_monitor_info_decode_of_wire(v: MonitorInfo, rest: Seq<u8>)
    ensures
        v.wire().len() == 24,
        MonitorInfo::decode(v.wire() + rest) == v,
{
    let s = v.wire() + rest;
    assert(s.subrange(0, 2) =~= wire::le16(v.stream_id));
    wire::lemma_u16_at(s, 0, v.stream_id);
    assert(s.subrange(2, 4) =~= wire::le16(wire::i16_image(v.x)));
    wire::lemma_u16_at(s, 2, wire::i16_image(v.x));
    assert(s.subrange(4, 6) =~= wire::le16(wire::i16_image(v.y)));
    wire::lemma_u16_at(s, 4, wire::i16_image(v.y));
    assert(s.subrange(6, 8) =~= wire::le16(v._pad));
    wire::lemma_u16_at(s, 6, v._pad);
    assert(s.subrange(8, 12) =~= wire::le32(v.width));
    wire::lemma_u32_at(s, 8, v.width);
    assert(s.subrange(12, 16) =~= wire::le32(v.height));
    wire::lemma_u32_at(s, 12, v.height);
    assert(s.subrange(16, 20) =~= wire::le32(v.refresh_mhz));
    wire::lemma_u32_at(s, 16, v.refresh_mhz);
    assert(s.subrange(20, 24) =~= wire::le32(v.scale));
    wire::lemma_u32_at(s, 20, v.scale);
}

/// Any 24 bytes are the wire form of what they decode to.
pub proof fn law_monitor_info_wire_of_decode(s: Seq<u8>)
    requires
        s.len() >= 24,
    ensures
        MonitorInfo::decode(s).wire() == s.subrange(0, 24),
{
    wire::lemma_le16_of_u16_at(s, 0);
    wire::lemma_le16_of_u16_at(s, 2);
    wire::lemma_le16_of_u16_at(s, 4);
    wire::lemma_le16_of_u16_at(s, 6);
    wire::lemma_le32_of_u32_at(s, 8);
    wire::lemma_le32_of_u32_at(s, 12);
    wire::lemma_le32_of_u32_at(s, 16);
    wire::lemma_le32_of_u32_at(s, 20);
    assert(MonitorInfo::decode(s).wire() =~= s.subrange(0, 24));
}

/// Fractional scale descriptor (4 bytes).
///
/// Sent as part of the handshake when the server detects `wp-fractional-scale-v1`.
/// The scale is in 1/120 units (e.g. 120 = 1.0x, 180 = 1.5x, 240 = 2.0x).
#[derive(Debug, Clone, Copy)]
pub struct FractionalScale {
    /// Stream ID this scale applies to.
    pub stream_id: u16,
    /// Scale in 1/120 units. 120 = 1.0x, 180 = 1.5x, 240 = 2.0x.
    pub scale_120: u16,
}

impl FractionalScale {
    /// Size of `FractionalScale` in bytes (always 4).
    pub const SIZE: usize = 4;

    /// The 4 bytes on the wire.
    pub open spec fn wire(self) -> Seq<u8> {
        wire::le16(self.stream_id) + wire::le16(self.scale_120)
    }

    /// The value that the first 4 bytes of `s` stand for.
    pub open spec fn decode(s: Seq<u8>) -> FractionalScale {
        FractionalScale {
            stream_id: wire::u16_at(s, 0),
            scale_120: wire::u16_at(s, 2),
        }
    }

    /// Create a new `FractionalScale` descriptor.
    #[must_use]
    pub fn new(stream_id: u16, scale_120: u16) -> (r: FractionalScale)
        ensures
            r == (FractionalScale { stream_id, scale_120 }),
    {
        FractionalScale { stream_id, scale_120 }
    }

    /// The bytes as they go on the wire.
    pub fn as_bytes(&self) -> (r: Vec<u8>)
        ensures
            r@ == self.wire(),
            r@.len() == 4,
    {
        let mut out: Vec<u8> = Vec::with_capacity(4);
        wire::put16(&mut out, self.stream_id);
        wire::put16(&mut out, self.scale_120);
        assert(out@ =~= self.wire());
        out
    }

    /// Read the value from exactly 4 bytes; any other length is refused.
    pub fn read_from_bytes(bytes: &[u8]) -> (r: Option<FractionalScale>)
        ensures
            r == if bytes@.len() == 4 {
                Some(FractionalScale::decode(bytes@))
            } else {
                None
            },
    {
        if bytes.len() != 4 {
            return None;
        }
        Some(
            FractionalScale {
                stream_id: wire::get16(bytes, 0),
                scale_120: wire::get16(bytes, 2),
            },
        )
    }
}

/// A fractional scale read back from bytes that start with its wire form is the same.
pub proof fn law_fractional_scale_decode_of_wire(v: FractionalScale, rest: Seq<u8>)
    ensures
        v.wire().len() == 4,
        FractionalScale::decode(v.wire() + rest) == v,
{
    let s = v.wire() + rest;
    assert(s.subrange(0, 2) =~= wire::le16(v.stream_id));
    wire::lemma_u16_at(s, 0, v.stream_id);
    assert(s.subrange(2, 4) =~= wire::le16(v.scale_120));
    wire::lemma_u16_at(s, 2, v.scale_120);
}

/// Any 4 bytes are the wire form of what they decode to.
pub proof fn law_fractional_scale_wire_of_decode(s: Seq<u8>)
    requires
        s.len() >= 4,
    ensures
        FractionalScale::decode(s).wire() == s.subrange(0, 4),
{
    wire::lemma_le16_of_u16_at(s, 0);
    wire::lemma_le16_of_u16_at(s, 2);
    assert(FractionalScale::decode(s).wire() =~= s.subrange(0, 4));
}

} // verus!
