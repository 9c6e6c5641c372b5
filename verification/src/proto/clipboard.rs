//! Clipboard transfer protocol — copy/paste between hosts.

use vstd::prelude::*;

use crate::proto::wire;

verus! {

/// Supported clipboard MIME types.
#[derive(Debug, Clone, Copy, PartialEq, Eq, Structural)]
pub enum ClipboardMime {
    /// UTF-8 text (text/plain;charset=utf-8).
    TextPlain,
    /// HTML (text/html).
    TextHtml,
    /// PNG image (image/png).
    ImagePng,
}

impl ClipboardMime {
    /// The byte that stands for this variant on the wire.
    pub open spec fn spec_code(self) -> u8 {
        match self {
            ClipboardMime::TextPlain => 0,
            ClipboardMime::TextHtml => 1,
            ClipboardMime::ImagePng => 2,
        }
    }

    /// The byte that stands for this variant on the wire.
    pub fn code(self) -> (r: u8)
        ensures
            r == self.spec_code(),
    {
        match self {
            ClipboardMime::TextPlain => 0,
            ClipboardMime::TextHtml => 1,
            ClipboardMime::ImagePng => 2,
        }
    }

    /// The variant a byte stands for, or the byte itself when there is none.
    pub open spec fn spec_decode(v: u8) -> Result<ClipboardMime, u8> {
        if v == 0 {
            Ok(ClipboardMime::TextPlain)
        } else if v == 1 {
            Ok(ClipboardMime::TextHtml)
        } else if v == 2 {
            Ok(ClipboardMime::ImagePng)
        } else {
            Err(v)
        }
    }
}

impl vstd::std_specs::convert::TryFromSpecImpl<u8> for ClipboardMime {
    open spec fn obeys_try_from_spec() -> bool {
        true
    }

    open spec fn try_from_spec(v: u8) -> Result<ClipboardMime, u8> {
        ClipboardMime::spec_decode(v)
    }
}

impl TryFrom<u8> for ClipboardMime {
    type Error = u8;

    fn try_from(v: u8) -> (r: Result<ClipboardMime, u8>) {
        match v {
            0 => Ok(ClipboardMime::TextPlain),
            1 => Ok(ClipboardMime::TextHtml),
            2 => Ok(ClipboardMime::ImagePng),
            other => Err(other),
        }
    }
}

/// Decoding the byte of a MIME type gives it back; a byte is decoded exactly if it
/// is below 3, and is handed back as the error otherwise.
pub proof fn law_clipboard_mime_round_trip(k: ClipboardMime, v: u8)
    ensures
        ClipboardMime::spec_decode(k.spec_code()) == Ok::<ClipboardMime, u8>(k),
        ClipboardMime::spec_decode(v) is Ok <==> v < 3,
        ClipboardMime::spec_decode(v) matches Ok(u) ==> u.spec_code() == v,
        ClipboardMime::spec_decode(v) matches Err(e) ==> e == v,
{
}

/// Clipboard transfer header (8 bytes), followed by variable-length data.
///
/// The clipboard data follows immediately after this header in the payload.
/// `data_len` bytes of clipboard content in the specified MIME type.
#[derive(Debug, Clone, Copy)]
pub struct ClipboardHeader {
    /// MIME type discriminant.
    pub mime_type: u8,
    /// Direction: 0 = server→client, 1 = client→server.
    pub direction: u8,
    /// Alignment padding; always zero.
    pub _pad: u16,
    /// Length of clipboard data following this header.
    pub data_len: u32,
}

impl ClipboardHeader {
    /// Size of `ClipboardHeader` in bytes (always 8).
    pub const SIZE: usize = 8;

    /// The 8 bytes on the wire.
    pub open spec fn wire(self) -> Seq<u8> {
        seq![self.mime_type] + seq![self.direction] + wire::le16(self._pad) + wire::le32(self.data_len)
    }

    /// The value that the first 8 bytes of `s` stand for.
    pub open spec fn decode(s: Seq<u8>) -> ClipboardHeader {
        ClipboardHeader {
            mime_type: s[0],
            direction: s[1],
            _pad: wire::u16_at(s, 2),
            data_len: wire::u32_at(s, 4),
        }
    }

    /// Create a new clipboard header.
    #[must_use]
    pub fn new(mime: ClipboardMime, direction: u8, data_len: u32) -> (r: ClipboardHeader)
        ensures
            r == (ClipboardHeader { mime_type: mime.spec_code(), direction, _pad: 0, data_len }),
    {
        ClipboardHeader { mime_type: mime.code(), direction, _pad: 0, data_len }
    }

    /// Decode the `mime_type` byte into a [`ClipboardMime`] discriminant.
    pub fn mime(&self) -> (r: Result<ClipboardMime, u8>)
        ensures
            r == ClipboardMime::spec_decode(self.mime_type),
    {
        ClipboardMime::try_from(self.mime_type)
    }

    /// The bytes as they go on the wire.
    pub fn as_bytes(&self) -> (r: Vec<u8>)
        ensures
            r@ == self.wire(),
            r@.len() == 8,
    {
        let mut out: Vec<u8> = Vec::with_capacity(8);
        out.push(self.mime_type);
        out.push(self.direction);
        wire::put16(&mut out, self._pad);
        wire::put32(&mut out, self.data_len);
        assert(out@ =~= self.wire());
        out
    }

    /// Read the value from exactly 8 bytes; any other length is refused.
    pub fn read_from_bytes(bytes: &[u8]) -> (r: Option<ClipboardHeader>)
        ensures
            r == if bytes@.len() == 8 {
                Some(ClipboardHeader::decode(bytes@))
            } else {
                None
            },
    {
        if bytes.len() != 8 {
            return None;
        }
        Some(
            ClipboardHeader {
                mime_type: bytes[0],
                direction: bytes[1],
                _pad: wire::get16(bytes, 2),
                data_len: wire::get32(bytes, 4),
            },
        )
    }
}

/// A clipboard header read back from bytes that start with its wire form is the same.
pub proof fn law_clipboard_header_decode_of_wire(v: ClipboardHeader, rest: Seq<u8>)
    ensures
        v.wire().len() == 8,
        ClipboardHeader::decode(v.wire() + rest) == v,
{
    let s = v.wire() + rest;
    assert(s.subrange(2, 4) =~= wire::le16(v._pad));
    wire::lemma_u16_at(s, 2, v._pad);
    assert(s.subrange(4, 8) =~= wire::le32(v.data_len));
    wire::lemma_u32_at(s, 4, v.data_len);
}

/// Any 8 bytes are the wire form of what they decode to.
pub proof fn law_clipboard_header_wire_of_decode(s: Seq<u8>)
    requires
        s.len() >= 8,
    ensures
        ClipboardHeader::decode(s).wire() == s.subrange(0, 8),
{
    wire::lemma_le16_of_u16_at(s, 2);
    wire::lemma_le32_of_u32_at(s, 4);
    assert(ClipboardHeader::decode(s).wire() =~= s.subrange(0, 8));
}

} // verus!
