//! What holds of the receiver whatever the traffic is.

use vstd::prelude::*;

use crate::proto::error::ProtoError;
use crate::proto::header;
use crate::proto::header::flags;
use crate::proto::header::{FrameHeader, MsgType};
use crate::proto::layout;
use crate::transport::chunk_sender;
use crate::transport::multiplexer;
use crate::transport::multiplexer::{Frame, MultiplexerError, Outcome, Partial, Receiver};

verus! {

/// Bytes behind a complete header do not change what it decodes to.
proof fn lemma_decode_extend(s: Seq<u8>, more: Seq<u8>)
    requires
        s.len() >= 16,
    ensures
        FrameHeader::decode(s + more) == FrameHeader::decode(s),
{
}

/// More bytes behind the buffer do not change a decision already made on it.
proof fn lemma_front_extend(buf: Seq<u8>, more: Seq<u8>)
    requires
        multiplexer::front(buf) !is NeedMore,
    ensures
        multiplexer::front(buf + more) == multiplexer::front(buf),
        multiplexer::front(buf) is Whole ==> multiplexer::after_front(buf + more)
            == multiplexer::after_front(buf) + more,
{
    lemma_decode_extend(buf, more);
    let n = FrameHeader::decode(buf).payload_len;
    if multiplexer::front(buf) is Whole {
        assert((buf + more).subrange(16, 16 + n) =~= buf.subrange(16, 16 + n));
        assert(multiplexer::after_front(buf + more) =~= multiplexer::after_front(buf) + more);
    }
}

/// What draining leads to once `more` is behind the buffer, given what it led
/// to before.
pub open spec fn continued(first: Outcome, more: Seq<u8>) -> Outcome {
    match first.error {
        None => {
            let second = multiplexer::feed(first.state, more);
            Outcome {
                state: second.state,
                messages: first.messages + second.messages,
                error: second.error,
            }
        },
        Some(e) => Outcome {
            state: Receiver { buf: first.state.buf + more, partial: first.state.partial },
            messages: first.messages,
            error: Some(e),
        },
    }
}

proof fn lemma_drain_extend(r: Receiver, more: Seq<u8>)
    ensures
        multiplexer::drain(Receiver { buf: r.buf + more, partial: r.partial }) == continued(
            multiplexer::drain(r),
            more,
        ),
    decreases r.buf.len(),
{
    let ext = Receiver { buf: r.buf + more, partial: r.partial };
    match multiplexer::front(r.buf) {
        multiplexer::Front::NeedMore => {
            assert(Seq::<Frame>::empty() + multiplexer::drain(ext).messages =~= multiplexer::drain(
                ext,
            ).messages);
        },
        multiplexer::Front::Bad(e) => {
            lemma_front_extend(r.buf, more);
        },
        multiplexer::Front::Whole(f) => {
            lemma_front_extend(r.buf, more);
            let next = Receiver {
                buf: multiplexer::after_front(r.buf),
                partial: multiplexer::absorb(r.partial, f),
            };
            lemma_drain_extend(next, more);
            let done = multiplexer::as_seq(multiplexer::completed(r.partial, f));
            let tail = multiplexer::drain(next);
            if tail.error is None {
                let second = multiplexer::feed(tail.state, more);
                assert(done + (tail.messages + second.messages) =~= (done + tail.messages)
                    + second.messages);
            }
        },
    }
}

/// How the bytes are cut into pieces makes no difference: feeding `a` and then
/// `b` gives the messages, the state and the error of feeding them at once.
/// Once a frame is refused, no later bytes change that.
pub proof fn law_pieces_do_not_matter(r: Receiver, a: Seq<u8>, b: Seq<u8>)
    ensures
        multiplexer::feed(r, a + b) == continued(multiplexer::feed(r, a), b),
{
    lemma_drain_extend(Receiver { buf: r.buf + a, partial: r.partial }, b);
    assert(r.buf + a + b =~= r.buf + (a + b));
}

proof fn lemma_drain_room(r: Receiver, extra: nat)
    requires
        r.has_room(extra),
    ensures
        multiplexer::drain(r).state.has_room(extra),
    decreases r.buf.len(),
{
    match multiplexer::front(r.buf) {
        multiplexer::Front::Whole(f) => {
            let next = Receiver {
                buf: multiplexer::after_front(r.buf),
                partial: multiplexer::absorb(r.partial, f),
            };
            let stream = f.header.stream_id;
            assert forall|s: u16| #[trigger] next.partial.contains_key(s) implies next.partial[s].len()
                + next.buf.len() + extra <= isize::MAX by {
                if s != stream || r.partial.contains_key(s) {
                    assert(r.partial.contains_key(s));
                }
            }
            lemma_drain_room(next, extra);
        },
        _ => {},
    }
}

/// A receiver never holds more than it was fed: whatever arrives takes up no
/// more room than its own length.
pub proof fn law_room_shrinks_by_what_arrives(r: Receiver, data: Seq<u8>, extra: nat)
    requires
        r.has_room(data.len() + extra),
    ensures
        multiplexer::feed(r, data).state.has_room(extra),
{
    let grown = Receiver { buf: r.buf + data, partial: r.partial };
    assert(grown.has_room(extra));
    lemma_drain_room(grown, extra);
}

/// Every frame of a sequence is one that a receiver takes.
pub open spec fn all_acceptable(frames: Seq<Frame>) -> bool {
    forall|i: int| 0 <= i < frames.len() ==> (#[trigger] frames[i]).acceptable()
}

/// Whatever frames go on the wire, the receiver takes exactly those, in order:
/// it completes their messages, keeps the unfinished parts, and has no byte
/// left over and no error.
pub proof fn law_frames_arrive(partial: Partial, frames: Seq<Frame>)
    requires
        all_acceptable(frames),
    ensures
        multiplexer::feed(
            Receiver { buf: Seq::empty(), partial },
            multiplexer::frames_wire(frames),
        ) == (Outcome {
            state: Receiver {
                buf: Seq::empty(),
                partial: multiplexer::absorb_all(partial, frames),
            },
            messages: multiplexer::completed_all(partial, frames),
            error: None,
        }),
    decreases frames.len(),
{
    let wire = multiplexer::frames_wire(frames);
    assert(Seq::<u8>::empty() + wire =~= wire);
    if frames.len() > 0 {
        let f = frames[0];
        let rest = frames.drop_first();
        assert(f.acceptable());
        assert forall|i: int| 0 <= i < rest.len() implies (#[trigger] rest[i]).acceptable() by {
            assert(rest[i] == frames[i + 1]);
        }
        let rest_wire = multiplexer::frames_wire(rest);
        header::law_header_decode_of_wire(f.header, f.payload + rest_wire);
        assert(wire =~= f.header.wire() + (f.payload + rest_wire));
        assert(wire.subrange(16, 16 + f.header.payload_len) =~= f.payload);
        assert(multiplexer::front(wire) == multiplexer::Front::Whole(f));
        assert(multiplexer::after_front(wire) =~= rest_wire);
        law_frames_arrive(multiplexer::absorb(partial, f), rest);
        assert(Seq::<u8>::empty() + rest_wire =~= rest_wire);
    } else {
        assert(multiplexer::front(wire) is NeedMore);
    }
}

/// A payload that is split into chunks arrives as one message with the whole
/// payload, whatever the chunk size and the flags, under the header of its final
/// chunk; the other streams are left as they were. Bytes that the stream still
/// held of an unfinished message come in front.
pub proof fn law_split_payload_arrives_whole(
    partial: Partial,
    stream_id: u16,
    msg_type: MsgType,
    extra_flags: u8,
    payload: Seq<u8>,
    timestamp_ns: u64,
    chunk_size: nat,
)
    requires
        0 < chunk_size <= multiplexer::MAX_PAYLOAD_LEN,
    ensures
        ({
            let frames = chunk_sender::chunk_frames(
                stream_id,
                msg_type,
                extra_flags,
                payload,
                timestamp_ns,
                chunk_size,
            );
            let outcome = multiplexer::feed(
                Receiver { buf: Seq::empty(), partial },
                multiplexer::frames_wire(frames),
            );
            &&& outcome.error is None
            &&& outcome.state == (Receiver {
                buf: Seq::empty(),
                partial: partial.remove(stream_id),
            })
            &&& outcome.messages == seq![
                Frame {
                    header: frames.last().header,
                    payload: multiplexer::held(partial, stream_id) + payload,
                },
            ]
            &&& frames.last().header.stream_id == stream_id
            &&& frames.last().header.msg_type == msg_type.spec_code()
            &&& frames.last().header.flags == extra_flags | flags::LAST_CHUNK
            &&& frames.last().header.timestamp_ns == timestamp_ns
        }),
{
    let frames = chunk_sender::chunk_frames(
        stream_id,
        msg_type,
        extra_flags,
        payload,
        timestamp_ns,
        chunk_size,
    );
    lemma_chunks_absorbed(
        partial,
        stream_id,
        msg_type,
        extra_flags,
        payload,
        timestamp_ns,
        chunk_size,
    );
    law_frames_arrive(partial, frames);
}

proof fn lemma_last_flag(extra_flags: u8)
    ensures
        (extra_flags | flags::LAST_CHUNK) & flags::LAST_CHUNK != 0,
        (extra_flags & !flags::LAST_CHUNK) & flags::LAST_CHUNK == 0,
{
    assert((extra_flags & !2u8) & 2u8 == 0) by (bit_vector);
    assert((extra_flags | 2u8) & 2u8 != 0) by (bit_vector);
}

/// `LAST_CHUNK` is set on the final frame of a payload and on no other, whatever
/// the flags are that it is split with.
pub proof fn law_only_the_final_chunk_is_last(
    stream_id: u16,
    msg_type: MsgType,
    extra_flags: u8,
    payload: Seq<u8>,
    timestamp_ns: u64,
    chunk_size: nat,
    i: int,
)
    requires
        ({
            let frames = chunk_sender::chunk_frames(
                stream_id,
                msg_type,
                extra_flags,
                payload,
                timestamp_ns,
                chunk_size,
            );
            0 <= i < frames.len()
        }),
    ensures
        ({
            let frames = chunk_sender::chunk_frames(
                stream_id,
                msg_type,
                extra_flags,
                payload,
                timestamp_ns,
                chunk_size,
            );
            frames[i].is_last() <==> i == frames.len() - 1
        }),
    decreases payload.len(),
{
    lemma_last_flag(extra_flags);
    if chunk_size > 0 && payload.len() > chunk_size {
        let rest = payload.subrange(chunk_size as int, payload.len() as int);
        let tail = chunk_sender::chunk_frames(
            stream_id,
            msg_type,
            extra_flags,
            rest,
            timestamp_ns,
            chunk_size,
        );
        assert(tail.len() > 0);
        if i > 0 {
            law_only_the_final_chunk_is_last(
                stream_id,
                msg_type,
                extra_flags,
                rest,
                timestamp_ns,
                chunk_size,
                i - 1,
            );
        }
    }
}

proof fn lemma_chunks_absorbed(
    partial: Partial,
    stream_id: u16,
    msg_type: MsgType,
    extra_flags: u8,
    payload: Seq<u8>,
    timestamp_ns: u64,
    chunk_size: nat,
)
    requires
        0 < chunk_size <= multiplexer::MAX_PAYLOAD_LEN,
    ensures
        ({
            let frames = chunk_sender::chunk_frames(
                stream_id,
                msg_type,
                extra_flags,
                payload,
                timestamp_ns,
                chunk_size,
            );
            let h = frames.last().header;
            &&& frames.len() > 0
            &&& all_acceptable(frames)
            &&& multiplexer::absorb_all(partial, frames) == partial.remove(stream_id)
            &&& multiplexer::completed_all(partial, frames) == seq![
                Frame { header: h, payload: multiplexer::held(partial, stream_id) + payload },
            ]
            &&& h.stream_id == stream_id
            &&& h.msg_type == msg_type.spec_code()
            &&& h.flags == extra_flags | flags::LAST_CHUNK
            &&& h.timestamp_ns == timestamp_ns
        }),
    decreases payload.len(),
{
    let frames = chunk_sender::chunk_frames(
        stream_id,
        msg_type,
        extra_flags,
        payload,
        timestamp_ns,
        chunk_size,
    );
    lemma_last_flag(extra_flags);
    header::law_msg_type_round_trip(msg_type, msg_type.spec_code());
    if payload.len() <= chunk_size {
        assert(frames.drop_first() =~= Seq::<Frame>::empty());
        assert(multiplexer::completed_all(
            multiplexer::absorb(partial, frames[0]),
            frames.drop_first(),
        ) =~= Seq::<Frame>::empty());
        assert(multiplexer::completed_all(partial, frames) =~= multiplexer::as_seq(
            multiplexer::completed(partial, frames[0]),
        ));
        assert(multiplexer::absorb_all(
            multiplexer::absorb(partial, frames[0]),
            frames.drop_first(),
        ) == multiplexer::absorb(partial, frames[0]));
    } else {
        let d = chunk_size as int;
        let part = payload.subrange(0, d);
        let rest = payload.subrange(d, payload.len() as int);
        let first = frames[0];
        let next = multiplexer::absorb(partial, first);
        let tail = chunk_sender::chunk_frames(
            stream_id,
            msg_type,
            extra_flags,
            rest,
            timestamp_ns,
            chunk_size,
        );
        lemma_chunks_absorbed(
            next,
            stream_id,
            msg_type,
            extra_flags,
            rest,
            timestamp_ns,
            chunk_size,
        );
        assert(frames.drop_first() =~= tail);
        assert(frames.last() == tail.last());
        assert(next.remove(stream_id) =~= partial.remove(stream_id));
        assert(multiplexer::held(partial, stream_id) + part + rest =~= multiplexer::held(
            partial,
            stream_id,
        ) + payload);
        assert(multiplexer::completed(partial, first) is None);
        assert(multiplexer::completed_all(partial, frames) =~= multiplexer::completed_all(
            next,
            tail,
        ));
        assert forall|i: int| 0 <= i < frames.len() implies (#[trigger] frames[i]).acceptable() by {
            if i > 0 {
                assert(frames[i] == tail[i - 1]);
            }
        }
    }
}

/// A payload and what it is split with.
pub struct Parcel {
    pub msg_type: MsgType,
    pub extra_flags: u8,
    pub payload: Seq<u8>,
    pub timestamp_ns: u64,
    pub chunk_size: nat,
}

impl Parcel {
    /// The frames that it is split into on a stream.
    pub open spec fn frames(self, stream_id: u16) -> Seq<Frame> {
        chunk_sender::chunk_frames(
            stream_id,
            self.msg_type,
            self.extra_flags,
            self.payload,
            self.timestamp_ns,
            self.chunk_size,
        )
    }

    /// The message that it arrives as: the whole payload, under the header of the
    /// final chunk.
    pub open spec fn message(self, stream_id: u16) -> Frame {
        Frame { header: self.frames(stream_id).last().header, payload: self.payload }
    }

    /// Whether its chunks are of a size that a receiver takes.
    pub open spec fn sendable(self) -> bool {
        0 < self.chunk_size <= multiplexer::MAX_PAYLOAD_LEN
    }
}

/// The wire bytes of payloads that are sent one after another on a stream.
pub open spec fn parcels_wire(stream_id: u16, parcels: Seq<Parcel>) -> Seq<u8>
    decreases parcels.len(),
{
    if parcels.len() == 0 {
        Seq::empty()
    } else {
        multiplexer::frames_wire(parcels[0].frames(stream_id)) + parcels_wire(
            stream_id,
            parcels.drop_first(),
        )
    }
}

/// The messages that they arrive as.
pub open spec fn parcels_messages(stream_id: u16, parcels: Seq<Parcel>) -> Seq<Frame> {
    Seq::new(parcels.len(), |i: int| parcels[i].message(stream_id))
}

/// Payloads that are split and sent one after another on a stream arrive whole,
/// one message each, in the order they were sent in, whatever their chunk sizes
/// and flags are; the other streams are left as they were.
pub proof fn law_split_payloads_arrive_in_order(
    partial: Partial,
    stream_id: u16,
    parcels: Seq<Parcel>,
)
    requires
        !partial.contains_key(stream_id),
        forall|i: int| 0 <= i < parcels.len() ==> (#[trigger] parcels[i]).sendable(),
    ensures
        multiplexer::feed(
            Receiver { buf: Seq::empty(), partial },
            parcels_wire(stream_id, parcels),
        ) == (Outcome {
            state: Receiver { buf: Seq::empty(), partial },
            messages: parcels_messages(stream_id, parcels),
            error: None,
        }),
    decreases parcels.len(),
{
    let start = Receiver { buf: Seq::empty(), partial };
    if parcels.len() == 0 {
        law_frames_arrive(partial, Seq::empty());
        assert(parcels_messages(stream_id, parcels) =~= Seq::<Frame>::empty());
    } else {
        let p = parcels[0];
        let rest = parcels.drop_first();
        assert(p.sendable());
        assert forall|i: int| 0 <= i < rest.len() implies (#[trigger] rest[i]).sendable() by {
            assert(rest[i] == parcels[i + 1]);
        }
        law_split_payload_arrives_whole(
            partial,
            stream_id,
            p.msg_type,
            p.extra_flags,
            p.payload,
            p.timestamp_ns,
            p.chunk_size,
        );
        let first = multiplexer::feed(start, multiplexer::frames_wire(p.frames(stream_id)));
        assert(partial.remove(stream_id) =~= partial);
        assert(Seq::<u8>::empty() + p.payload =~= p.payload);
        assert(first.messages == seq![p.message(stream_id)]);
        law_split_payloads_arrive_in_order(partial, stream_id, rest);
        law_pieces_do_not_matter(
            start,
            multiplexer::frames_wire(p.frames(stream_id)),
            parcels_wire(stream_id, rest),
        );
        assert(parcels_messages(stream_id, parcels) =~= seq![p.message(stream_id)]
            + parcels_messages(stream_id, rest));
    }
}

/// A refusal is final: once a frame is refused, every later push is answered with
/// the same error, completes nothing and takes nothing off the front.
pub proof fn law_refusal_is_final(r: Receiver, data: Seq<u8>, more: Seq<u8>)
    requires
        multiplexer::feed(r, data).error is Some,
    ensures
        ({
            let refused = multiplexer::feed(r, data);
            multiplexer::feed(refused.state, more) == (Outcome {
                state: Receiver {
                    buf: refused.state.buf + more,
                    partial: refused.state.partial,
                },
                messages: Seq::empty(),
                error: refused.error,
            })
        }),
{
    lemma_refused_front(Receiver { buf: r.buf + data, partial: r.partial });
    let state = multiplexer::feed(r, data).state;
    lemma_front_extend(state.buf, more);
}

/// What stopped the receiver is still at the front.
proof fn lemma_refused_front(r: Receiver)
    ensures
        multiplexer::drain(r).error matches Some(e) ==> multiplexer::front(
            multiplexer::drain(r).state.buf,
        ) == multiplexer::Front::Bad(e),
    decreases r.buf.len(),
{
    match multiplexer::front(r.buf) {
        multiplexer::Front::Whole(f) => {
            lemma_refused_front(
                Receiver {
                    buf: multiplexer::after_front(r.buf),
                    partial: multiplexer::absorb(r.partial, f),
                },
            );
        },
        _ => {},
    }
}

/// As many single-chunk frames as are sent, so many messages arrive: the same
/// ones, in the order they were sent in.
pub proof fn law_whole_messages_arrive_in_order(frames: Seq<Frame>)
    requires
        all_acceptable(frames),
        forall|i: int| 0 <= i < frames.len() ==> (#[trigger] frames[i]).is_last(),
    ensures
        multiplexer::feed(
            Receiver { buf: Seq::empty(), partial: Map::empty() },
            multiplexer::frames_wire(frames),
        ) == (Outcome {
            state: Receiver { buf: Seq::empty(), partial: Map::empty() },
            messages: frames,
            error: None,
        }),
{
    law_frames_arrive(Map::empty(), frames);
    lemma_whole_messages(frames);
}

proof fn lemma_whole_messages(frames: Seq<Frame>)
    requires
        forall|i: int| 0 <= i < frames.len() ==> (#[trigger] frames[i]).is_last(),
    ensures
        multiplexer::absorb_all(Map::empty(), frames) == Map::<u16, Seq<u8>>::empty(),
        multiplexer::completed_all(Map::empty(), frames) == frames,
    decreases frames.len(),
{
    if frames.len() > 0 {
        let f = frames[0];
        let rest = frames.drop_first();
        assert(f.is_last());
        assert forall|i: int| 0 <= i < rest.len() implies (#[trigger] rest[i]).is_last() by {
            assert(rest[i] == frames[i + 1]);
        }
        lemma_whole_messages(rest);
        assert(multiplexer::absorb(Map::empty(), f) =~= Map::<u16, Seq<u8>>::empty());
        assert(Seq::<u8>::empty() + f.payload =~= f.payload);
        assert(seq![f] + rest =~= frames);
    } else {
        assert(frames =~= Seq::<Frame>::empty());
    }
}

/// The frames or messages of one stream, in order.
pub open spec fn of_stream(frames: Seq<Frame>, stream: u16) -> Seq<Frame>
    decreases frames.len(),
{
    if frames.len() == 0 {
        Seq::empty()
    } else if frames[0].header.stream_id == stream {
        seq![frames[0]] + of_stream(frames.drop_first(), stream)
    } else {
        of_stream(frames.drop_first(), stream)
    }
}

proof fn lemma_of_stream_concat(a: Seq<Frame>, b: Seq<Frame>, stream: u16)
    ensures
        of_stream(a + b, stream) == of_stream(a, stream) + of_stream(b, stream),
    decreases a.len(),
{
    if a.len() == 0 {
        assert(a + b =~= b);
        assert(Seq::<Frame>::empty() + of_stream(b, stream) =~= of_stream(b, stream));
    } else {
        assert((a + b).drop_first() =~= a.drop_first() + b);
        lemma_of_stream_concat(a.drop_first(), b, stream);
        assert(seq![a[0]] + (of_stream(a.drop_first(), stream) + of_stream(b, stream)) =~= seq![
            a[0],
        ] + of_stream(a.drop_first(), stream) + of_stream(b, stream));
    }
}

proof fn lemma_of_stream_one(m: Option<Frame>, stream: u16)
    ensures
        of_stream(multiplexer::as_seq(m), stream) == match m {
            Some(f) if f.header.stream_id == stream => seq![f],
            _ => Seq::<Frame>::empty(),
        },
{
    if let Some(f) = m {
        assert(seq![f].drop_first() =~= Seq::<Frame>::empty());
        assert(of_stream(seq![f].drop_first(), stream) =~= Seq::<Frame>::empty());
        assert(seq![f] + Seq::<Frame>::empty() =~= seq![f]);
    }
}

proof fn lemma_stream_alone(p: Partial, q: Partial, frames: Seq<Frame>, stream: u16)
    requires
        p.contains_key(stream) == q.contains_key(stream),
        p.contains_key(stream) ==> p[stream] == q[stream],
    ensures
        of_stream(multiplexer::completed_all(p, frames), stream) == multiplexer::completed_all(
            q,
            of_stream(frames, stream),
        ),
        ({
            let pp = multiplexer::absorb_all(p, frames);
            let qq = multiplexer::absorb_all(q, of_stream(frames, stream));
            &&& pp.contains_key(stream) == qq.contains_key(stream)
            &&& pp.contains_key(stream) ==> pp[stream] == qq[stream]
        }),
    decreases frames.len(),
{
    if frames.len() > 0 {
        let f = frames[0];
        let rest = frames.drop_first();
        let p2 = multiplexer::absorb(p, f);
        let done = multiplexer::completed(p, f);
        lemma_of_stream_concat(
            multiplexer::as_seq(done),
            multiplexer::completed_all(p2, rest),
            stream,
        );
        lemma_of_stream_one(done, stream);
        if f.header.stream_id == stream {
            let q2 = multiplexer::absorb(q, f);
            lemma_stream_alone(p2, q2, rest, stream);
            let own = of_stream(frames, stream);
            assert(own.drop_first() =~= of_stream(rest, stream));
            assert(own[0] == f);
        } else {
            lemma_stream_alone(p2, q, rest, stream);
            assert(of_stream(multiplexer::completed_all(p, frames), stream) =~= of_stream(
                multiplexer::completed_all(p2, rest),
                stream,
            ));
        }
    } else {
        assert(of_stream(multiplexer::completed_all(p, frames), stream) =~= Seq::<Frame>::empty());
    }
}

/// Streams do not mix: the messages of one stream, and what it still holds,
/// are the same as if the frames of every other stream had not been sent.
pub proof fn law_streams_do_not_mix(partial: Partial, frames: Seq<Frame>, stream: u16)
    ensures
        of_stream(multiplexer::completed_all(partial, frames), stream)
            == multiplexer::completed_all(partial, of_stream(frames, stream)),
        ({
            let all = multiplexer::absorb_all(partial, frames);
            let alone = multiplexer::absorb_all(partial, of_stream(frames, stream));
            &&& all.contains_key(stream) == alone.contains_key(stream)
            &&& multiplexer::held(all, stream) == multiplexer::held(alone, stream)
        }),
{
    lemma_stream_alone(partial, partial, frames, stream);
}

/// Every chunk of a payload names the stream, the type and the timestamp of the message
/// and has its flags, but for the one that marks the last. Its length field is the
/// length of what it carries: the next `chunk_size` bytes of the payload, or what is left
/// of it.
pub proof fn law_chunks_carry_their_part(
    stream_id: u16,
    msg_type: MsgType,
    extra_flags: u8,
    payload: Seq<u8>,
    timestamp_ns: u64,
    chunk_size: nat,
    i: int,
)
    requires
        0 < chunk_size <= multiplexer::MAX_PAYLOAD_LEN,
        0 <= i < chunk_sender::chunk_frames(
            stream_id,
            msg_type,
            extra_flags,
            payload,
            timestamp_ns,
            chunk_size,
        ).len(),
    ensures
        ({
            let frames = chunk_sender::chunk_frames(
                stream_id,
                msg_type,
                extra_flags,
                payload,
                timestamp_ns,
                chunk_size,
            );
            let f = frames[i];
            let from = i * chunk_size;
            let to = if i == frames.len() - 1 {
                payload.len() as int
            } else {
                from + chunk_size
            };
            &&& f.header.stream_id == stream_id
            &&& f.header.msg_type == msg_type.spec_code()
            &&& f.header.timestamp_ns == timestamp_ns
            &&& f.header.flags & !flags::LAST_CHUNK == extra_flags & !flags::LAST_CHUNK
            &&& f.header.payload_len == f.payload.len()
            &&& f.payload.len() <= chunk_size
            &&& 0 <= from <= to <= payload.len()
            &&& f.payload == payload.subrange(from, to)
        }),
    decreases payload.len(),
{
    assert((extra_flags & !2u8) & !2u8 == extra_flags & !2u8 && (extra_flags | 2u8) & !2u8
        == extra_flags & !2u8) by (bit_vector);
    let frames = chunk_sender::chunk_frames(
        stream_id,
        msg_type,
        extra_flags,
        payload,
        timestamp_ns,
        chunk_size,
    );
    let n = payload.len() as int;
    let c = chunk_size as int;
    if n <= c {
        assert(i == 0);
        assert(payload.subrange(0, n) =~= payload);
    } else {
        let rest = payload.subrange(c, n);
        let tail = chunk_sender::chunk_frames(
            stream_id,
            msg_type,
            extra_flags,
            rest,
            timestamp_ns,
            chunk_size,
        );
        assert(tail.len() > 0);
        if i > 0 {
            law_chunks_carry_their_part(
                stream_id,
                msg_type,
                extra_flags,
                rest,
                timestamp_ns,
                chunk_size,
                i - 1,
            );
            assert(frames[i] == tail[i - 1]);
            assert(i * c == (i - 1) * c + c) by (nonlinear_arith);
            let to = if i == frames.len() - 1 {
                n
            } else {
                i * c + c
            };
            assert(rest.subrange((i - 1) * c, to - c) =~= payload.subrange(i * c, to));
        }
    }
}

/// What a receiver makes of the bytes at its front follows from them alone. The length
/// is in the fifth to eighth byte; over 4 MiB it is refused at once. Nothing happens
/// before the whole frame is there. Then a type that is unknown, in the third byte, is
/// refused. A frame with the flag of the last chunk, in the fourth byte, completes a
/// message: what its stream has received so far, followed by the bytes behind the
/// header. Any other is added to that.
pub proof fn law_front_is_judged_by_its_bytes(r: Receiver)
    ensures
        ({
            let b = r.buf;
            let len = layout::word(b, 4);
            let stream = layout::half(b, 0) as u16;
            let outcome = multiplexer::drain(r);
            let refused = Outcome { state: r, messages: Seq::empty(), error: outcome.error };
            let part = multiplexer::held(r.partial, stream) + b.subrange(16, 16 + len);
            let left = b.subrange(16 + len, b.len() as int);
            if b.len() < 16 {
                outcome.error is None && outcome == refused
            } else if len > 0x40_0000 {
                outcome == refused && outcome.error == Some(
                    MultiplexerError::PayloadTooLarge(len as u32),
                )
            } else if b.len() < 16 + len {
                outcome.error is None && outcome == refused
            } else if b[2] > 8 {
                outcome == refused && outcome.error == Some(
                    MultiplexerError::UnknownMsgType(ProtoError::UnknownMsgType(b[2])),
                )
            } else if b[3] & 2 != 0 {
                let rest = multiplexer::drain(
                    Receiver { buf: left, partial: r.partial.remove(stream) },
                );
                &&& outcome.messages.len() == 1 + rest.messages.len()
                &&& outcome.messages[0].payload == part
                &&& outcome.messages[0].header.stream_id == stream
                &&& outcome.messages[0].header.msg_type == b[2]
                &&& outcome.messages[0].header.flags == b[3]
                &&& outcome.messages[0].header.timestamp_ns == layout::double(b, 8)
                &&& outcome.messages.subrange(1, outcome.messages.len() as int) == rest.messages
                &&& outcome.state == rest.state
                &&& outcome.error == rest.error
            } else {
                outcome == multiplexer::drain(
                    Receiver { buf: left, partial: r.partial.insert(stream, part) },
                )
            }
        }),
{
    let b = r.buf;
    let outcome = multiplexer::drain(r);
    if b.len() >= 16 {
        layout::law_numbers_are_little_endian(b, 0, 0, 0, 0, 0);
        layout::law_numbers_are_little_endian(b, 4, 0, 0, 0, 0);
        layout::law_numbers_are_little_endian(b, 8, 0, 0, 0, 0);
        match multiplexer::front(b) {
            multiplexer::Front::Whole(f) => {
                let rest = multiplexer::drain(
                    Receiver {
                        buf: multiplexer::after_front(b),
                        partial: multiplexer::absorb(r.partial, f),
                    },
                );
                assert(f.is_last() ==> outcome.messages.subrange(
                    1,
                    outcome.messages.len() as int,
                ) =~= rest.messages);
                assert(!f.is_last() ==> outcome.messages =~= rest.messages);
            },
            _ => {},
        }
    }
}

} // verus!
