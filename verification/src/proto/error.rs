//! Errors of the protocol layer.

use vstd::prelude::*;

use crate::text;

verus! {

/// Errors originating from the protocol layer (message decoding, validation).
#[derive(Debug, Clone, Copy, PartialEq, Eq, Structural)]
pub enum ProtoError {
    /// The `msg_type` byte of a header matches no known message type.
    UnknownMsgType(u8),
}

impl vstd::std_specs::convert::FromSpecImpl<u8> for ProtoError {
    open spec fn obeys_from_spec() -> bool {
        true
    }

    open spec fn from_spec(v: u8) -> ProtoError {
        ProtoError::UnknownMsgType(v)
    }
}

impl From<u8> for ProtoError {
    fn from(v: u8) -> (r: ProtoError) {
        ProtoError::UnknownMsgType(v)
    }
}

impl ProtoError {
    /// Text of the error: the byte in hexadecimal, with its `0x` prefix.
    pub open spec fn spec_message(self) -> Seq<char> {
        match self {
            ProtoError::UnknownMsgType(v) => "unknown message type: 0x"@ + seq![
                text::digit(v as int / 16),
                text::digit(v as int % 16),
            ],
        }
    }

    /// Human-readable message.
    pub fn message(&self) -> (r: String)
        ensures
            r@ == self.spec_message(),
    {
        let ProtoError::UnknownMsgType(v) = *self;
        let mut r = String::from_str("unknown message type: 0x");
        text::push_digit(&mut r, v / 16);
        text::push_digit(&mut r, v % 16);
        assert(r@ =~= self.spec_message());
        r
    }
}

/// The number that a hexadecimal digit stands for.
pub open spec fn hex_value(c: char) -> int {
    if '0' <= c <= '9' {
        c as int - '0' as int
    } else {
        c as int - 'a' as int + 10
    }
}

/// The message of an unknown type ends with its byte, as two hexadecimal digits.
pub proof fn law_message_names_the_byte(v: u8)
    ensures
        ({
            let m = ProtoError::UnknownMsgType(v).spec_message();
            let n = m.len() as int;
            &&& n >= 2
            &&& 16 * hex_value(m[n - 2]) + hex_value(m[n - 1]) == v
        }),
{
}

} // verus!
