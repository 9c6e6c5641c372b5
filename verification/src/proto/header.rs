//! Universal frame header and the message types it announces.

use vstd::prelude::*;

use crate::proto::error::ProtoError;
use crate::proto::wire;

pub mod flags;

verus! {

/// Message type discriminant (1 byte on the wire).
#[derive(Debug, Clone, Copy, PartialEq, Eq, Structural)]
pub enum MsgType {
    /// Compressed frame delta or full frame.
    FrameUpdate,
    /// Full key-frame used as a reference for delta decoding.
    AnchorFrame,
    /// Keyboard / pointer input event.
    InputEvent,
    /// Cursor position and hotspot update.
    CursorMove,
    /// Initial protocol negotiation payload.
    Handshake,
    /// Acknowledgement of a received message.
    Ack,
    /// Surface resize notification (server→client or client→server).
    Resize,
    /// Clipboard data transfer.
    Clipboard,
    /// Client→server: produce frames at this resolution.
    TargetResolution,
}

impl MsgType {
    /// The byte that stands for this type on the wire.
    pub open spec fn spec_code(self) -> u8 {
        match self {
            MsgType::FrameUpdate => 0,
            MsgType::AnchorFrame => 1,
            MsgType::InputEvent => 2,
            MsgType::CursorMove => 3,
            MsgType::Handshake => 4,
            MsgType::Ack => 5,
            MsgType::Resize => 6,
            MsgType::Clipboard => 7,
            MsgType::TargetResolution => 8,
        }
    }

    /// The byte that stands for this type on the wire.
    pub fn code(self) -> (r: u8)
        ensures
            r == self.spec_code(),
            r <= 8,
    {
        match self {
            MsgType::FrameUpdate => 0,
            MsgType::AnchorFrame => 1,
            MsgType::InputEvent => 2,
            MsgType::CursorMove => 3,
            MsgType::Handshake => 4,
            MsgType::Ack => 5,
            MsgType::Resize => 6,
            MsgType::Clipboard => 7,
            MsgType::TargetResolution => 8,
        }
    }

    /// The type a byte stands for, or the error that names the byte.
    pub open spec fn spec_decode(v: u8) -> Result<MsgType, ProtoError> {
        if v == 0 {
            Ok(MsgType::FrameUpdate)
        } else if v == 1 {
            Ok(MsgType::AnchorFrame)
        } else if v == 2 {
            Ok(MsgType::InputEvent)
        } else if v == 3 {
            Ok(MsgType::CursorMove)
        } else if v == 4 {
            Ok(MsgType::Handshake)
        } else if v == 5 {
            Ok(MsgType::Ack)
        } else if v == 6 {
            Ok(MsgType::Resize)
        } else if v == 7 {
            Ok(MsgType::Clipboard)
        } else if v == 8 {
            Ok(MsgType::TargetResolution)
        } else {
            Err(ProtoError::UnknownMsgType(v))
        }
    }
}

impl vstd::std_specs::convert::TryFromSpecImpl<u8> for MsgType {
    open spec fn obeys_try_from_spec() -> bool {
        true
    }

    open spec fn try_from_spec(v: u8) -> Result<MsgType, ProtoError> {
        MsgType::spec_decode(v)
    }
}

impl TryFrom<u8> for MsgType {
    type Error = ProtoError;

    fn try_from(v: u8) -> (r: Result<MsgType, ProtoError>) {
        match v {
            0 => Ok(MsgType::FrameUpdate),
            1 => Ok(MsgType::AnchorFrame),
            2 => Ok(MsgType::InputEvent),
            3 => Ok(MsgType::CursorMove),
            4 => Ok(MsgType::Handshake),
            5 => Ok(MsgType::Ack),
            6 => Ok(MsgType::Resize),
            7 => Ok(MsgType::Clipboard),
            8 => Ok(MsgType::TargetResolution),
            other => Err(ProtoError::UnknownMsgType(other)),
        }
    }
}

/// Decoding the byte of a message type gives the type back, and a byte is
/// decoded exactly if some message type has it; any other byte is named in
/// the error.
pub proof fn law_msg_type_round_trip(t: MsgType, v: u8)
    ensures
        MsgType::spec_decode(t.spec_code()) == Ok::<MsgType, ProtoError>(t),
        MsgType::spec_decode(v) is Ok <==> v <= 8,
        MsgType::spec_decode(v) matches Ok(u) ==> u.spec_code() == v,
        MsgType::spec_decode(v) matches Err(e) ==> e == ProtoError::UnknownMsgType(v),
{
}

/// Fixed-size 16-byte frame header transmitted before every message payload.
///
/// All fields are little-endian on the wire.
#[derive(Debug, Clone, Copy)]
pub struct FrameHeader {
    /// 0 = input stream, 1+ = surface id.
    pub stream_id: u16,
    /// Discriminant from [`MsgType`].
    pub msg_type: u8,
    /// Bitfield from [`flags`].
    pub flags: u8,
    /// Length of the payload following this header.
    pub payload_len: u32,
    /// Capture timestamp in nanoseconds (monotonic clock).
    pub timestamp_ns: u64,
}

impl FrameHeader {
    /// Size of `FrameHeader` in bytes (always 16).
    pub const SIZE: usize = 16;

    /// The 16 bytes of the header on the wire.
    pub open spec fn wire(self) -> Seq<u8> {
        wire::le16(self.stream_id) + seq![self.msg_type, self.flags] + wire::le32(self.payload_len) + wire::le64(
            self.timestamp_ns,
        )
    }

    /// The header that the first 16 bytes of `s` stand for.
    pub open spec fn decode(s: Seq<u8>) -> FrameHeader {
        FrameHeader {
            stream_id: wire::u16_at(s, 0),
            msg_type: s[2],
            flags: s[3],
            payload_len: wire::u32_at(s, 4),
            timestamp_ns: wire::u64_at(s, 8),
        }
    }

    /// Create a new `FrameHeader` with the given fields.
    #[must_use]
    pub fn new(
        stream_id: u16,
        msg_type: MsgType,
        flags: u8,
        payload_len: u32,
        timestamp_ns: u64,
    ) -> (r: FrameHeader)
        ensures
            r == (FrameHeader {
                stream_id,
                msg_type: msg_type.spec_code(),
                flags,
                payload_len,
                timestamp_ns,
            }),
    {
        FrameHeader { stream_id, msg_type: msg_type.code(), flags, payload_len, timestamp_ns }
    }

    /// Decode the `msg_type` byte into a [`MsgType`] discriminant.
    pub fn msg_type(&self) -> (r: Result<MsgType, ProtoError>)
        ensures
            r == MsgType::spec_decode(self.msg_type),
    {
        MsgType::try_from(self.msg_type)
    }

    /// The header as it goes on the wire.
    pub fn as_bytes(&self) -> (r: Vec<u8>)
        ensures
            r@ == self.wire(),
            r@.len() == 16,
    {
        let mut out: Vec<u8> = Vec::with_capacity(16);
        wire::put16(&mut out, self.stream_id);
        out.push(self.msg_type);
        out.push(self.flags);
        wire::put32(&mut out, self.payload_len);
        wire::put64(&mut out, self.timestamp_ns);
        assert(out@ =~= self.wire());
        out
    }

    /// Read a header from exactly 16 bytes; any other length is refused.
    pub fn read_from_bytes(bytes: &[u8]) -> (r: Option<FrameHeader>)
        ensures
            r == if bytes@.len() == 16 {
                Some(FrameHeader::decode(bytes@))
            } else {
                None
            },
    {
        if bytes.len() != 16 {
            return None;
        }
        Some(
            FrameHeader {
                stream_id: wire::get16(bytes, 0),
                msg_type: bytes[2],
                flags: bytes[3],
                payload_len: wire::get32(bytes, 4),
                timestamp_ns: wire::get64(bytes, 8),
            },
        )
    }
}

/// A header read back from a stream that starts with its bytes is the header.
pub proof fn law_header_decode_of_wire(h: FrameHeader, rest: Seq<u8>)
    ensures
        h.wire().len() == 16,
        FrameHeader::decode(h.wire() + rest) == h,
{
    let s = h.wire() + rest;
    assert(s.subrange(0, 2) =~= wire::le16(h.stream_id));
    assert(s.subrange(4, 8) =~= wire::le32(h.payload_len));
    assert(s.subrange(8, 16) =~= wire::le64(h.timestamp_ns));
    wire::lemma_u16_at(s, 0, h.stream_id);
    wire::lemma_u32_at(s, 4, h.payload_len);
    wire::lemma_u64_at(s, 8, h.timestamp_ns);
}

/// Every 16 bytes are the wire form of the header they decode to.
pub proof fn law_header_wire_of_decode(s: Seq<u8>)
    requires
        s.len() >= 16,
    ensures
        FrameHeader::decode(s).wire() == s.subrange(0, 16),
{
    wire::lemma_le16_of_u16_at(s, 0);
    wire::lemma_le32_of_u32_at(s, 4);
    wire::lemma_le64_of_u64_at(s, 8);
    assert(FrameHeader::decode(s).wire() =~= s.subrange(0, 16));
}

} // verus!
