//! Cursor position updates and cursor-image metadata.

use vstd::prelude::*;

use crate::proto::wire;

verus! {

/// Cursor position and hotspot update (no bitmap — just movement).
#[derive(Debug, Clone, Copy)]
pub struct CursorMove {
    /// Surface under the cursor.
    pub surface_id: u16,
    /// Alignment padding.
    pub _pad: u16,
    /// X coordinate (IEEE 754 single-precision bits).
    pub x: u32,
    /// Y coordinate (IEEE 754 single-precision bits).
    pub y: u32,
}

impl CursorMove {
    /// Size of `CursorMove` in bytes (always 12).
    pub const SIZE: usize = 12;

    /// The 12 bytes on the wire.
    pub open spec fn wire(self) -> Seq<u8> {
        wire::le16(self.surface_id) + wire::le16(self._pad) + wire::le32(self.x) + wire::le32(self.y)
    }

    /// The value that the first 12 bytes of `s` stand for.
    pub open spec fn decode(s: Seq<u8>) -> CursorMove {
        CursorMove {
            surface_id: wire::u16_at(s, 0),
            _pad: wire::u16_at(s, 2),
            x: wire::u32_at(s, 4),
            y: wire::u32_at(s, 8),
        }
    }

    /// The bytes as they go on the wire.
    pub fn as_bytes(&self) -> (r: Vec<u8>)
        ensures
            r@ == self.wire(),
            r@.len() == 12,
    {
        let mut out: Vec<u8> = Vec::with_capacity(12);
        wire::put16(&mut out, self.surface_id);
        wire::put16(&mut out, self._pad);
        wire::put32(&mut out, self.x);
        wire::put32(&mut out, self.y);
        assert(out@ =~= self.wire());
        out
    }

    /// Read the value from exactly 12 bytes; any other length is refused.
    pub fn read_from_bytes(bytes: &[u8]) -> (r: Option<CursorMove>)
        ensures
            r == if bytes@.len() == 12 {
                Some(CursorMove::decode(bytes@))
            } else {
                None
            },
    {
        if bytes.len() != 12 {
            return None;
        }
        Some(
            CursorMove {
                surface_id: wire::get16(bytes, 0),
                _pad: wire::get16(bytes, 2),
                x: wire::get32(bytes, 4),
                y: wire::get32(bytes, 8),
            },
        )
    }
}

/// A cursor move read back from bytes that start with its wire form is the same.
pub proof fn law_cursor_move_decode_of_wire(v: CursorMove, rest: Seq<u8>)
    ensures
        v.wire().len() == 12,
        CursorMove::decode(v.wire() + rest) == v,
{
    let s = v.wire() + rest;
    assert(s.subrange(0, 2) =~= wire::le16(v.surface_id));
    wire::lemma_u16_at(s, 0, v.surface_id);
    assert(s.subrange(2, 4) =~= wire::le16(v._pad));
    wire::lemma_u16_at(s, 2, v._pad);
    assert(s.subrange(4, 8) =~= wire::le32(v.x));
    wire::lemma_u32_at(s, 4, v.x);
    assert(s.subrange(8, 12) =~= wire::le32(v.y));
    wire::lemma_u32_at(s, 8, v.y);
}

/// Any 12 bytes are the wire form of what they decode to.
pub proof fn law_cursor_move_wire_of_decode(s: Seq<u8>)
    requires
        s.len() >= 12,
    ensures
        CursorMove::decode(s).wire() == s.subrange(0, 12),
{
    wire::lemma_le16_of_u16_at(s, 0);
    wire::lemma_le16_of_u16_at(s, 2);
    wire::lemma_le32_of_u32_at(s, 4);
    wire::lemma_le32_of_u32_at(s, 8);
    assert(CursorMove::decode(s).wire() =~= s.subrange(0, 12));
}

/// Full cursor update: position + hotspot + optional RGBA bitmap dimensions.
///
/// The bitmap pixel data follows this header in the payload when `has_bitmap != 0`.
#[derive(Debug, Clone, Copy)]
pub struct CursorUpdate {
    /// Surface under the cursor.
    pub surface_id: u16,
    /// Horizontal hotspot offset.
    pub hotspot_x: i16,
    /// Vertical hotspot offset.
    pub hotspot_y: i16,
    /// 1 if RGBA bitmap data follows in the payload.
    pub has_bitmap: u8,
    /// Alignment padding.
    pub _pad: u8,
    /// Bitmap width in pixels.
    pub bitmap_width: u16,
    /// Bitmap height in pixels.
    pub bitmap_height: u16,
    /// X coordinate (IEEE 754 single-precision bits).
    pub x: u32,
    /// Y coordinate (IEEE 754 single-precision bits).
    pub y: u32,
}

impl CursorUpdate {
    /// Size of `CursorUpdate` in bytes (always 20).
    pub const SIZE: usize = 20;

    /// The 20 bytes on the wire.
    pub open spec fn wire(self) -> Seq<u8> {
        wire::le16(self.surface_id) + wire::le16(wire::i16_image(self.hotspot_x)) + wire::le16(wire::i16_image(self.hotspot_y)) + seq![self.has_bitmap] + seq![self._pad] + wire::le16(self.bitmap_width) + wire::le16(self.bitmap_height) + wire::le32(self.x) + wire::le32(self.y)
    }

    /// The value that the first 20 bytes of `s` stand for.
    pub open spec fn decode(s: Seq<u8>) -> CursorUpdate {
        CursorUpdate {
            surface_id: wire::u16_at(s, 0),
            hotspot_x: wire::i16_of_image(wire::u16_at(s, 2)),
            hotspot_y: wire::i16_of_image(wire::u16_at(s, 4)),
            has_bitmap: s[6],
            _pad: s[7],
            bitmap_width: wire::u16_at(s, 8),
            bitmap_height: wire::u16_at(s, 10),
            x: wire::u32_at(s, 12),
            y: wire::u32_at(s, 16),
        }
    }

    /// The bytes as they go on the wire.
    pub fn as_bytes(&self) -> (r: Vec<u8>)
        ensures
            r@ == self.wire(),
            r@.len() == 20,
    {
        let mut out: Vec<u8> = Vec::with_capacity(20);
        wire::put16(&mut out, self.surface_id);
        wire::put16(&mut out, wire::image_of_i16(self.hotspot_x));
        wire::put16(&mut out, wire::image_of_i16(self.hotspot_y));
        out.push(self.has_bitmap);
        out.push(self._pad);
        wire::put16(&mut out, self.bitmap_width);
        wire::put16(&mut out, self.bitmap_height);
        wire::put32(&mut out, self.x);
        wire::put32(&mut out, self.y);
        assert(out@ =~= self.wire());
        out
    }

    /// Read the value from exactly 20 bytes; any other length is refused.
    pub fn read_from_bytes(bytes: &[u8]) -> (r: Option<CursorUpdate>)
        ensures
            r == if bytes@.len() == 20 {
                Some(CursorUpdate::decode(bytes@))
            } else {
                None
            },
    {
        if bytes.len() != 20 {
            return None;
        }
        Some(
            CursorUpdate {
                surface_id: wire::get16(bytes, 0),
                hotspot_x: wire::i16_from_image(wire::get16(bytes, 2)),
                hotspot_y: wire::i16_from_image(wire::get16(bytes, 4)),
                has_bitmap: bytes[6],
                _pad: bytes[7],
                bitmap_width: wire::get16(bytes, 8),
                bitmap_height: wire::get16(bytes, 10),
                x: wire::get32(bytes, 12),
                y: wire::get32(bytes, 16),
            },
        )
    }
}

/// A cursor update read back from bytes that start with its wire form is the same.
pub proof fn law_cursor_update_decode_of_wire(v: CursorUpdate, rest: Seq<u8>)
    ensures
        v.wire().len() == 20,
        CursorUpdate::decode(v.wire() + rest) == v,
{
    let s = v.wire() + rest;
    assert(s.subrange(0, 2) =~= wire::le16(v.surface_id));
    wire::lemma_u16_at(s, 0, v.surface_id);
    assert(s.subrange(2, 4) =~= wire::le16(wire::i16_image(v.hotspot_x)));
    wire::lemma_u16_at(s, 2, wire::i16_image(v.hotspot_x));
    assert(s.subrange(4, 6) =~= wire::le16(wire::i16_image(v.hotspot_y)));
    wire::lemma_u16_at(s, 4, wire::i16_image(v.hotspot_y));
    assert(s.subrange(8, 10) =~= wire::le16(v.bitmap_width));
    wire::lemma_u16_at(s, 8, v.bitmap_width);
    assert(s.subrange(10, 12) =~= wire::le16(v.bitmap_height));
    wire::lemma_u16_at(s, 10, v.bitmap_height);
    assert(s.subrange(12, 16) =~= wire::le32(v.x));
    wire::lemma_u32_at(s, 12, v.x);
    assert(s.subrange(16, 20) =~= wire::le32(v.y));
    wire::lemma_u32_at(s, 16, v.y);
}

/// Any 20 bytes are the wire form of what they decode to.
pub proof fn law_cursor_update_wire_of_decode(s: Seq<u8>)
    requires
        s.len() >= 20,
    ensures
        CursorUpdate::decode(s).wire() == s.subrange(0, 20),
{
    wire::lemma_le16_of_u16_at(s, 0);
    wire::lemma_le16_of_u16_at(s, 2);
    wire::lemma_le16_of_u16_at(s, 4);
    wire::lemma_le16_of_u16_at(s, 8);
    wire::lemma_le16_of_u16_at(s, 10);
    wire::lemma_le32_of_u32_at(s, 12);
    wire::lemma_le32_of_u32_at(s, 16);
    assert(CursorUpdate::decode(s).wire() =~= s.subrange(0, 20));
}

} // verus!
