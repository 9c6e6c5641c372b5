//! Connection handshake with capability negotiation.

use vstd::prelude::*;

use crate::proto::wire;

pub mod capture_flags;
pub mod compress_flags;

verus! {

/// Fixed-size handshake payload exchanged at connection start.
///
/// Client and server each send one; the intersection of their flags
/// determines the negotiated protocol.
#[derive(Debug, Clone, Copy)]
pub struct HandshakePayload {
    /// Protocol version — must match on both sides.
    pub version: u16,
    /// Bitmask of supported capture backends (server → client).
    pub capture_flags: u8,
    /// Bitmask of supported compression algorithms.
    pub compress_flags: u8,
    /// Reserved for future use; zeroed on send, ignored on receive.
    pub _reserved: [u8; 4],
}

impl HandshakePayload {
    /// Current protocol version (incremented on breaking changes).
    pub const PROTOCOL_VERSION: u16 = 1;

    /// Size of `HandshakePayload` in bytes (always 8).
    pub const SIZE: usize = 8;

    /// The 8 bytes on the wire.
    pub open spec fn wire(self) -> Seq<u8> {
        wire::le16(self.version) + seq![self.capture_flags, self.compress_flags] + self._reserved@
    }

    /// The payload that the first 8 bytes of `s` stand for.
    pub open spec fn decode(s: Seq<u8>) -> HandshakePayload {
        HandshakePayload {
            version: wire::u16_at(s, 0),
            capture_flags: s[2],
            compress_flags: s[3],
            _reserved: [s[4], s[5], s[6], s[7]],
        }
    }

    /// Create a new handshake payload with the given capability flags.
    #[must_use]
    pub fn new(capture_flags: u8, compress_flags: u8) -> (r: HandshakePayload)
        ensures
            r.version == HandshakePayload::PROTOCOL_VERSION,
            r.capture_flags == capture_flags,
            r.compress_flags == compress_flags,
            r._reserved@ == seq![0u8, 0u8, 0u8, 0u8],
    {
        let r = HandshakePayload {
            version: HandshakePayload::PROTOCOL_VERSION,
            capture_flags,
            compress_flags,
            _reserved: [0u8; 4],
        };
        assert(r._reserved@ =~= seq![0u8, 0u8, 0u8, 0u8]);
        r
    }

    /// The bytes as they go on the wire.
    pub fn as_bytes(&self) -> (r: Vec<u8>)
        ensures
            r@ == self.wire(),
            r@.len() == 8,
    {
        let mut out: Vec<u8> = Vec::with_capacity(8);
        wire::put16(&mut out, self.version);
        out.push(self.capture_flags);
        out.push(self.compress_flags);
        out.push(self._reserved[0]);
        out.push(self._reserved[1]);
        out.push(self._reserved[2]);
        out.push(self._reserved[3]);
        assert(out@ =~= self.wire());
        out
    }

    /// Read the payload from exactly 8 bytes; any other length is refused.
    pub fn read_from_bytes(bytes: &[u8]) -> (r: Option<HandshakePayload>)
        ensures
            r == if bytes@.len() == 8 {
                Some(HandshakePayload::decode(bytes@))
            } else {
                None
            },
    {
        if bytes.len() != 8 {
            return None;
        }
        Some(
            HandshakePayload {
                version: wire::get16(bytes, 0),
                capture_flags: bytes[2],
                compress_flags: bytes[3],
                _reserved: [bytes[4], bytes[5], bytes[6], bytes[7]],
            },
        )
    }
}

/// A handshake read back from bytes that start with its wire form is the same.
pub proof fn law_handshake_decode_of_wire(v: HandshakePayload, rest: Seq<u8>)
    ensures
        v.wire().len() == 8,
        HandshakePayload::decode(v.wire() + rest) == v,
{
    let s = v.wire() + rest;
    assert(s.subrange(0, 2) =~= wire::le16(v.version));
    wire::lemma_u16_at(s, 0, v.version);
    assert(HandshakePayload::decode(s)._reserved =~= v._reserved);
}

/// Any 8 bytes are the wire form of the handshake they decode to.
pub proof fn law_handshake_wire_of_decode(s: Seq<u8>)
    requires
        s.len() >= 8,
    ensures
        HandshakePayload::decode(s).wire() == s.subrange(0, 8),
{
    wire::lemma_le16_of_u16_at(s, 0);
    assert(HandshakePayload::decode(s).wire() =~= s.subrange(0, 8));
}

} // verus!
