//! What the server does with each message that arrives.

use vstd::prelude::*;

use crate::proto::error::ProtoError;
use crate::proto::header::MsgType;
use crate::proto::input;
use crate::proto::input::InputEvent;
use crate::proto::layout;
use crate::proto::target_resolution;
use crate::proto::target_resolution::TargetResolutionPayload;
use crate::transport::multiplexer;
use crate::transport::multiplexer::{Frame, IncomingMessage};

verus! {

/// What to do with a message.
#[derive(Debug, Clone, Copy)]
pub enum Dispatch {
    /// Hand this event to the input thread.
    Inject(InputEvent),
    /// Produce frames of the size that the client asks for: see
    /// `FrameLoop::request_size`.
    Resize(TargetResolutionPayload),
    /// A message that is too short for what its type says: nothing to do.
    TooShort,
    /// The client's handshake: nothing more to do.
    ClientHandshake,
    /// A known type that the server has no use for.
    Ignore(MsgType),
    /// A type that nobody knows.
    Unknown(ProtoError),
}

/// What to do with a message: the first 16 bytes of an input message are an
/// event, the first 8 bytes of a target resolution message are a size, and
/// everything else is noted and passed over.
pub open spec fn dispatch_of(m: Frame) -> Dispatch {
    match MsgType::spec_decode(m.header.msg_type) {
        Ok(MsgType::InputEvent) => if m.payload.len() >= 16 {
            Dispatch::Inject(InputEvent::decode(m.payload.subrange(0, 16)))
        } else {
            Dispatch::TooShort
        },
        Ok(MsgType::TargetResolution) => if m.payload.len() >= 8 {
            Dispatch::Resize(TargetResolutionPayload::decode(m.payload.subrange(0, 8)))
        } else {
            Dispatch::TooShort
        },
        Ok(MsgType::Handshake) => Dispatch::ClientHandshake,
        Ok(other) => Dispatch::Ignore(other),
        Err(e) => Dispatch::Unknown(e),
    }
}

/// Decide what to do with a message.
pub fn dispatch(msg: &IncomingMessage) -> (r: Dispatch)
    ensures
        r == dispatch_of(msg@),
{
    match msg.header.msg_type() {
        Ok(MsgType::InputEvent) => {
            let payload = msg.payload_slice();
            if payload.len() < InputEvent::SIZE {
                return Dispatch::TooShort;
            }
            match InputEvent::read_from_bytes(
                vstd::slice::slice_subrange(payload, 0, InputEvent::SIZE),
            ) {
                Some(event) => Dispatch::Inject(event),
                None => Dispatch::TooShort,
            }
        },
        Ok(MsgType::TargetResolution) => {
            let payload = msg.payload_slice();
            if payload.len() < TargetResolutionPayload::SIZE {
                return Dispatch::TooShort;
            }
            match TargetResolutionPayload::read_from_bytes(
                vstd::slice::slice_subrange(payload, 0, TargetResolutionPayload::SIZE),
            ) {
                Some(request) => Dispatch::Resize(request),
                None => Dispatch::TooShort,
            }
        },
        Ok(MsgType::Handshake) => Dispatch::ClientHandshake,
        Ok(other) => Dispatch::Ignore(other),
        Err(e) => Dispatch::Unknown(e),
    }
}

/// An input event that is sent arrives: the message that carries its bytes is
/// dispatched to the input thread as the same event.
pub proof fn law_input_event_is_injected(event: InputEvent, m: Frame)
    requires
        m.header.msg_type == MsgType::InputEvent.spec_code(),
        m.payload == event.wire(),
    ensures
        dispatch_of(m) == Dispatch::Inject(event),
{
    input::law_input_event_decode_of_wire(event, Seq::empty());
    assert(event.wire() + Seq::<u8>::empty() =~= m.payload);
    assert(m.payload.subrange(0, 16) =~= m.payload);
}

/// A size that the client asks for is dispatched as the same size.
pub proof fn law_requested_size_is_dispatched(request: TargetResolutionPayload, m: Frame)
    requires
        m.header.msg_type == MsgType::TargetResolution.spec_code(),
        m.payload == request.wire(),
    ensures
        dispatch_of(m) == Dispatch::Resize(request),
{
    target_resolution::law_target_resolution_decode_of_wire(request, Seq::empty());
    assert(request.wire() + Seq::<u8>::empty() =~= m.payload);
    assert(m.payload.subrange(0, 8) =~= m.payload);
}

/// What is done with a message follows from its type byte and its bytes. An input
/// message is injected: its first byte is the kind and the twelve from the fifth on
/// are the payload of the event. A target resolution is a width and a height.
/// Messages that are too short for that are passed over, and so are a handshake and
/// all other types that are known; a byte that is none is named.
pub proof fn law_messages_are_dispatched_by_type(m: Frame, i: int)
    ensures
        ({
            let t = m.header.msg_type;
            let p = m.payload;
            match dispatch_of(m) {
                Dispatch::Inject(event) => {
                    &&& t == 2 && p.len() >= 16
                    &&& event.kind == p[0]
                    &&& 0 <= i < 12 ==> event.payload@[i] == p[4 + i]
                },
                Dispatch::Resize(request) => {
                    &&& t == 8 && p.len() >= 8
                    &&& request.width == layout::word(p, 0)
                    &&& request.height == layout::word(p, 4)
                },
                Dispatch::TooShort => t == 2 && p.len() < 16 || t == 8 && p.len() < 8,
                Dispatch::ClientHandshake => t == 4,
                Dispatch::Ignore(other) => t < 8 && t != 2 && t != 4 && other.spec_code() == t,
                Dispatch::Unknown(e) => t > 8 && e == ProtoError::UnknownMsgType(t),
            }
        }),
{
    let p = m.payload;
    if p.len() >= 8 {
        let head = p.subrange(0, 8);
        layout::law_numbers_are_little_endian(head, 0, 0, 0, 0, 0);
        layout::law_numbers_are_little_endian(head, 4, 0, 0, 0, 0);
    }
}

} // verus!
