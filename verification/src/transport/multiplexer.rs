//! Frame encoding/decoding and stream reassembly for the multiplexed transport protocol.

use std::collections::HashMap;

use bytes::{Bytes, BytesMut};
use vstd::prelude::*;

use crate::proto::error::ProtoError;
use crate::proto::header;
use crate::proto::header::flags;
use crate::proto::header::{FrameHeader, MsgType};
use crate::text;
use crate::transport::buffer;

verus! {

broadcast use vstd::std_specs::hash::group_hash_axioms;

/// Errors that can occur during frame parsing and multiplexing.
#[derive(Debug)]
pub enum MultiplexerError {
    /// The message type byte is not recognised.
    UnknownMsgType(ProtoError),
    /// The payload length exceeds [`MAX_PAYLOAD_LEN`].
    PayloadTooLarge(u32),
    /// An underlying I/O error occurred; the text says how. Parsing bytes that
    /// are there never gives it.
    Io(String),
}

impl vstd::std_specs::convert::FromSpecImpl<ProtoError> for MultiplexerError {
    open spec fn obeys_from_spec() -> bool {
        true
    }

    open spec fn from_spec(e: ProtoError) -> MultiplexerError {
        MultiplexerError::UnknownMsgType(e)
    }
}

impl From<ProtoError> for MultiplexerError {
    fn from(e: ProtoError) -> (r: MultiplexerError) {
        MultiplexerError::UnknownMsgType(e)
    }
}

impl MultiplexerError {
    /// Text of the error.
    pub open spec fn spec_message(self) -> Seq<char> {
        match self {
            MultiplexerError::UnknownMsgType(e) => "protocol error: "@ + e.spec_message(),
            MultiplexerError::PayloadTooLarge(n) => "payload too large: "@ + text::decimal(n as nat)
                + " bytes"@,
            MultiplexerError::Io(what) => "I/O error: "@ + what@,
        }
    }

    /// Human-readable message.
    pub fn message(&self) -> (r: String)
        ensures
            r@ == self.spec_message(),
    {
        match self {
            MultiplexerError::UnknownMsgType(e) => {
                let mut r = String::from_str("protocol error: ");
                r.append(e.message().as_str());
                r
            },
            MultiplexerError::PayloadTooLarge(n) => {
                let mut r = String::from_str("payload too large: ");
                text::push_decimal(&mut r, *n as u64);
                r.append(" bytes");
                r
            },
            MultiplexerError::Io(what) => {
                let mut r = String::from_str("I/O error: ");
                r.append(what.as_str());
                r
            },
        }
    }
}

/// Maximum allowed payload per frame chunk (4 MiB).
pub const MAX_PAYLOAD_LEN: u32 = 4 * 1024 * 1024;

/// A header together with the payload bytes that follow it.
#[verifier::ext_equal]
pub struct Frame {
    pub header: FrameHeader,
    pub payload: Seq<u8>,
}

impl Frame {
    /// The frame as it goes on the wire.
    pub open spec fn wire(self) -> Seq<u8> {
        self.header.wire() + self.payload
    }

    /// Whether a receiver takes the frame: its length field is the payload's
    /// length and within the limit, and its message type is known.
    pub open spec fn acceptable(self) -> bool {
        &&& self.payload.len() == self.header.payload_len
        &&& self.header.payload_len <= MAX_PAYLOAD_LEN
        &&& MsgType::spec_decode(self.header.msg_type) is Ok
    }

    /// Whether the frame ends its message.
    pub open spec fn is_last(self) -> bool {
        self.header.flags & flags::LAST_CHUNK != 0
    }
}

/// The wire form of frames sent one after another.
pub open spec fn frames_wire(frames: Seq<Frame>) -> Seq<u8>
    decreases frames.len(),
{
    if frames.len() == 0 {
        Seq::empty()
    } else {
        frames[0].wire() + frames_wire(frames.drop_first())
    }
}

/// The wire form of a single frame.
pub proof fn lemma_frames_wire_one(f: Frame)
    ensures
        frames_wire(seq![f]) == f.wire(),
{
    assert(seq![f].drop_first() =~= Seq::<Frame>::empty());
    assert(frames_wire(seq![f].drop_first()) =~= Seq::<u8>::empty());
    assert(frames_wire(seq![f]) =~= f.wire());
}

/// Serializes a [`FrameHeader`] + payload into `dst`.
pub fn encode_frame(header: &FrameHeader, payload: &[u8], dst: &mut Vec<u8>)
    ensures
        final(dst)@ == old(dst)@ + header.wire() + payload@,
{
    let mut head = header.as_bytes();
    dst.append(&mut head);
    dst.extend_from_slice(payload);
    assert(dst@ =~= old(dst)@ + header.wire() + payload@);
}

/// Payload parts received so far, by stream.
pub type Partial = Map<u16, Seq<u8>>;

/// What a stream has received so far of an unfinished message.
pub open spec fn held(partial: Partial, stream: u16) -> Seq<u8> {
    if partial.contains_key(stream) {
        partial[stream]
    } else {
        Seq::empty()
    }
}

/// Parts in progress after one more frame: the last one of a message clears
/// its stream, any other is appended.
pub open spec fn absorb(partial: Partial, f: Frame) -> Partial {
    if f.is_last() {
        partial.remove(f.header.stream_id)
    } else {
        partial.insert(f.header.stream_id, held(partial, f.header.stream_id) + f.payload)
    }
}

/// The message that a frame completes, if it is the last one: the header of
/// that frame with everything its stream has received.
pub open spec fn completed(partial: Partial, f: Frame) -> Option<Frame> {
    if f.is_last() {
        Some(
            Frame { header: f.header, payload: held(partial, f.header.stream_id) + f.payload },
        )
    } else {
        None
    }
}

/// A completed message, if any, as a sequence.
pub open spec fn as_seq(m: Option<Frame>) -> Seq<Frame> {
    match m {
        Some(f) => seq![f],
        None => Seq::empty(),
    }
}

/// Parts in progress after a sequence of frames.
pub open spec fn absorb_all(partial: Partial, frames: Seq<Frame>) -> Partial
    decreases frames.len(),
{
    if frames.len() == 0 {
        partial
    } else {
        absorb_all(absorb(partial, frames[0]), frames.drop_first())
    }
}

/// Messages completed by a sequence of frames, in order.
pub open spec fn completed_all(partial: Partial, frames: Seq<Frame>) -> Seq<Frame>
    decreases frames.len(),
{
    if frames.len() == 0 {
        Seq::empty()
    } else {
        as_seq(completed(partial, frames[0])) + completed_all(
            absorb(partial, frames[0]),
            frames.drop_first(),
        )
    }
}

/// What the bytes at the front of the receive buffer amount to.
pub enum Front {
    /// Not yet a whole frame.
    NeedMore,
    /// A header that is refused.
    Bad(MultiplexerError),
    /// A whole frame.
    Whole(Frame),
}

/// Classification of the bytes received and not yet taken. A length over the
/// limit is refused as soon as the header is there, an unknown message type
/// only once the whole frame is.
pub open spec fn front(buf: Seq<u8>) -> Front {
    let h = FrameHeader::decode(buf);
    if buf.len() < 16 {
        Front::NeedMore
    } else if h.payload_len > MAX_PAYLOAD_LEN {
        Front::Bad(MultiplexerError::PayloadTooLarge(h.payload_len))
    } else if buf.len() < 16 + h.payload_len {
        Front::NeedMore
    } else {
        match MsgType::spec_decode(h.msg_type) {
            Err(e) => Front::Bad(MultiplexerError::UnknownMsgType(e)),
            Ok(_) => Front::Whole(
                Frame { header: h, payload: buf.subrange(16, 16 + h.payload_len) },
            ),
        }
    }
}

/// The buffer once the whole frame at its front is taken.
pub open spec fn after_front(buf: Seq<u8>) -> Seq<u8> {
    buf.subrange(16 + FrameHeader::decode(buf).payload_len, buf.len() as int)
}

/// State of a receiver: bytes not yet taken, and parts in progress.
#[verifier::ext_equal]
pub struct Receiver {
    pub buf: Seq<u8>,
    pub partial: Partial,
}

/// What feeding bytes to a receiver leads to.
#[verifier::ext_equal]
pub struct Outcome {
    /// State afterwards. After an error the refused frame is still at the front.
    pub state: Receiver,
    /// Messages completed, in order.
    pub messages: Seq<Frame>,
    /// The error that stopped the receiver, if any.
    pub error: Option<MultiplexerError>,
}

/// Takes whole frames off the front of the buffer until none is left or one
/// is refused.
pub open spec fn drain(r: Receiver) -> Outcome
    decreases r.buf.len(),
{
    match front(r.buf) {
        Front::NeedMore => Outcome { state: r, messages: Seq::empty(), error: None },
        Front::Bad(e) => Outcome { state: r, messages: Seq::empty(), error: Some(e) },
        Front::Whole(f) => {
            let rest = drain(
                Receiver { buf: after_front(r.buf), partial: absorb(r.partial, f) },
            );
            Outcome {
                state: rest.state,
                messages: as_seq(completed(r.partial, f)) + rest.messages,
                error: rest.error,
            }
        },
    }
}

/// What `data` leads to when it arrives at a receiver.
pub open spec fn feed(r: Receiver, data: Seq<u8>) -> Outcome {
    drain(Receiver { buf: r.buf + data, partial: r.partial })
}

/// A fully reassembled message received from the wire.
#[derive(Debug)]
pub struct IncomingMessage {
    /// The frame header (`msg_type`, `flags`, `stream_id`, etc.).
    pub header: FrameHeader,
    /// The reassembled payload bytes.
    ///
    /// Single-chunk messages share the parser's underlying allocation
    /// (zero-copy `BytesMut::split_to`); only multi-chunk reassembly copies.
    pub payload: Bytes,
}

impl View for IncomingMessage {
    type V = Frame;

    open spec fn view(&self) -> Frame {
        Frame { header: self.header, payload: buffer::bytes_contents(self.payload) }
    }
}

impl IncomingMessage {
    /// The payload as a slice.
    pub fn payload_slice(&self) -> (r: &[u8])
        ensures
            r@ == self@.payload,
    {
        buffer::bytes_slice(&self.payload)
    }
}

/// The views of a list of messages.
pub open spec fn messages_view(ms: Seq<IncomingMessage>) -> Seq<Frame> {
    ms.map_values(|m: IncomingMessage| m@)
}

/// Stateful stream parser that accumulates bytes and emits complete frames.
///
/// Call [`StreamParser::push`] with incoming bytes; it will return any
/// complete [`IncomingMessage`]s found in the buffer.
///
/// Uses `BytesMut` so single-chunk payloads are emitted as zero-copy
/// `Bytes` views into the parser's allocation.
pub struct StreamParser {
    buf: BytesMut,
    /// In-progress reassembly of chunked payloads, keyed by `stream_id`.
    chunks: HashMap<u16, BytesMut>,
}

impl View for StreamParser {
    type V = Receiver;

    closed spec fn view(&self) -> Receiver {
        Receiver {
            buf: buffer::buffer_contents(self.buf),
            partial: self.chunks@.map_values(|b: BytesMut| buffer::buffer_contents(b)),
        }
    }
}

impl Receiver {
    /// Whether `extra` more bytes can be held, whichever stream they belong to.
    pub open spec fn has_room(self, extra: nat) -> bool {
        &&& self.buf.len() + extra <= isize::MAX
        &&& forall|s: u16| #[trigger]
            self.partial.contains_key(s) ==> self.partial[s].len() + self.buf.len() + extra
                <= isize::MAX
    }
}

impl StreamParser {
    /// Create a new empty stream parser.
    #[must_use]
    pub fn new() -> (r: StreamParser)
        ensures
            r@ == (Receiver { buf: Seq::empty(), partial: Map::empty() }),
    {
        let r = StreamParser { buf: buffer::new_buffer(64 * 1024), chunks: HashMap::new() };
        assert(r@.partial =~= Map::empty());
        r
    }

    /// Feed raw bytes from the wire. Returns any complete messages found.
    pub fn push(&mut self, data: &[u8]) -> (r: Result<Vec<IncomingMessage>, MultiplexerError>)
        requires
            old(self)@.has_room(data@.len()),
        ensures
            final(self)@ == feed(old(self)@, data@).state,
            match r {
                Ok(ms) => {
                    &&& feed(old(self)@, data@).error is None
                    &&& messages_view(ms@) == feed(old(self)@, data@).messages
                },
                Err(e) => feed(old(self)@, data@).error == Some(e),
            },
    {
        let ghost goal = feed(self@, data@);
        buffer::append(&mut self.buf, data);
        let mut out: Vec<IncomingMessage> = Vec::new();
        assert(self@.buf == old(self)@.buf + data@);
        assert(self@.partial == old(self)@.partial);
        assert(messages_view(out@) + drain(self@).messages =~= goal.messages);
        loop
            invariant
                self@.has_room(0),
                goal == feed(old(self)@, data@),
                drain(self@).state == goal.state,
                drain(self@).error == goal.error,
                messages_view(out@) + drain(self@).messages == goal.messages,
            decreases self@.buf.len(),
        {
            let filled = buffer::buffer_slice(&self.buf);
            if filled.len() < 16 {
                assert(messages_view(out@) =~= goal.messages);
                return Ok(out);
            }
            let head = vstd::slice::slice_subrange(filled, 0, 16);
            proof {
                lemma_decode_prefix(self@.buf);
            }
            let hdr = match FrameHeader::read_from_bytes(head) {
                Some(h) => h,
                None => {
                    return Ok(out);
                },
            };
            if hdr.payload_len > MAX_PAYLOAD_LEN {
                return Err(MultiplexerError::PayloadTooLarge(hdr.payload_len));
            }
            let total: usize = 16 + hdr.payload_len as usize;
            if filled.len() < total {
                assert(messages_view(out@) =~= goal.messages);
                return Ok(out);
            }
            if let Err(e) = hdr.msg_type() {
                return Err(MultiplexerError::from(e));
            }
            let ghost before = self@;
            let ghost f = Frame {
                header: hdr,
                payload: before.buf.subrange(16, 16 + hdr.payload_len),
            };
            let mut frame_bytes = buffer::split_to(&mut self.buf, total);
            let _head = buffer::split_to(&mut frame_bytes, 16);
            let payload = buffer::freeze(frame_bytes);
            assert(buffer::bytes_contents(payload) =~= f.payload);
            assert(self@.buf =~= after_front(before.buf));
            assert(self@.partial == before.partial);
            let msg = self.reassemble(hdr, payload);
            let ghost sent = out@;
            if let Some(m) = msg {
                out.push(m);
                assert(messages_view(out@) =~= messages_view(sent) + seq![m@]);
            }
            proof {
                let rest = drain(self@);
                assert(drain(before).messages == as_seq(completed(before.partial, f))
                    + rest.messages);
                assert(messages_view(out@) =~= messages_view(sent) + as_seq(
                    completed(before.partial, f),
                ));
                assert(messages_view(out@) + rest.messages =~= messages_view(sent) + (as_seq(
                    completed(before.partial, f),
                ) + rest.messages));
            }
        }
    }

    /// Reassemble chunked payloads. Returns `Some` only when the last chunk arrives.
    fn reassemble(&mut self, hdr: FrameHeader, payload: Bytes) -> (r: Option<IncomingMessage>)
        requires
            forall|s: u16| #[trigger]
                old(self)@.partial.contains_key(s) ==> old(self)@.partial[s].len()
                    + buffer::bytes_contents(payload).len() <= isize::MAX,
            buffer::bytes_contents(payload).len() <= MAX_PAYLOAD_LEN,
        ensures
            final(self)@.buf == old(self)@.buf,
            final(self)@.partial == absorb(
                old(self)@.partial,
                Frame { header: hdr, payload: buffer::bytes_contents(payload) },
            ),
            match r {
                Some(m) => completed(
                    old(self)@.partial,
                    Frame { header: hdr, payload: buffer::bytes_contents(payload) },
                ) == Some(m@),
                None => completed(
                    old(self)@.partial,
                    Frame { header: hdr, payload: buffer::bytes_contents(payload) },
                ) is None,
            },
    {
        let ghost before = self@.partial;
        let ghost f = Frame { header: hdr, payload: buffer::bytes_contents(payload) };
        let is_last = hdr.flags & flags::LAST_CHUNK != 0;
        if is_last && !self.chunks.contains_key(&hdr.stream_id) {
            assert(self@.partial =~= absorb(before, f));
            assert(held(before, hdr.stream_id) + f.payload =~= f.payload);
            return Some(IncomingMessage { header: hdr, payload });
        }
        let mut part = match self.chunks.remove(&hdr.stream_id) {
            Some(p) => p,
            None => buffer::new_buffer(buffer::bytes_slice(&payload).len() * 2),
        };
        assert(buffer::buffer_contents(part) =~= held(before, hdr.stream_id));
        assert(self@.partial =~= before.remove(hdr.stream_id));
        buffer::append(&mut part, buffer::bytes_slice(&payload));
        if is_last {
            return Some(IncomingMessage { header: hdr, payload: buffer::freeze(part) });
        }
        self.chunks.insert(hdr.stream_id, part);
        assert(self@.partial =~= absorb(before, f));
        None
    }

    /// Whether `extra` more bytes can be held, whichever stream they belong to.
    #[must_use]
    pub fn can_hold(&self, extra: usize) -> (r: bool)
        ensures
            r == self@.has_room(extra as nat),
    {
        let waiting: usize = buffer::buffer_slice(&self.buf).len();
        if extra > isize::MAX as usize || waiting > isize::MAX as usize - extra {
            return false;
        }
        let left: usize = isize::MAX as usize - extra - waiting;
        let values = self.chunks.values();
        let ghost parts = vstd::std_specs::iter::IteratorSpec::remaining(&values).unref();
        let mut fits = true;
        for part in it: values
            invariant
                it.seq().unref() == parts,
                fits <==> (forall|i: int|
                    0 <= i < it.index() ==> buffer::buffer_contents(#[trigger] parts[i]).len()
                        <= left),
        {
            assert(*part == parts[it.index() as int]);
            fits = fits && buffer::buffer_slice(part).len() <= left;
        }
        proof {
            assert(parts.to_set() == self.chunks@.values());
            assert forall|s: u16| #[trigger] self@.partial.contains_key(s) implies exists|i: int|
                0 <= i < parts.len() && self@.partial[s] == buffer::buffer_contents(
                    #[trigger] parts[i],
                ) by {
                assert(self.chunks@.values().contains(self.chunks@[s]));
                assert(parts.to_set().contains(self.chunks@[s]));
            }
            assert forall|i: int| 0 <= i < parts.len() implies exists|s: u16| #[trigger]
                self@.partial.contains_key(s) && self@.partial[s] == buffer::buffer_contents(
                    #[trigger] parts[i],
                ) by {
                assert(parts.to_set().contains(parts[i]));
                let s = choose|s: u16| self.chunks@.contains_key(s) && self.chunks@[s] == parts[i];
                assert(self@.partial.contains_key(s));
            }
        }
        fits
    }

    /// Number of streams currently being reassembled.
    #[must_use]
    pub fn in_progress_streams(&self) -> (r: usize)
        ensures
            r == self@.partial.dom().len(),
    {
        assert(self@.partial.dom() =~= self.chunks@.dom());
        self.chunks.len()
    }
}

impl Default for StreamParser {
    fn default() -> (r: StreamParser)
        ensures
            r@ == (Receiver { buf: Seq::empty(), partial: Map::empty() }),
    {
        StreamParser::new()
    }
}

/// Decoding a header looks at the first 16 bytes only.
proof fn lemma_decode_prefix(s: Seq<u8>)
    requires
        s.len() >= 16,
    ensures
        FrameHeader::decode(s.subrange(0, 16)) == FrameHeader::decode(s),
{
    header::law_header_wire_of_decode(s);
    header::law_header_decode_of_wire(FrameHeader::decode(s), Seq::empty());
    assert(FrameHeader::decode(s).wire() + Seq::<u8>::empty() =~= s.subrange(0, 16));
}

} // verus!
