//! Splits payloads into fixed-size chunks for transmission over the multiplexed protocol.

use vstd::prelude::*;

use crate::proto::header::flags;
use crate::proto::header::{FrameHeader, MsgType};
use crate::transport::multiplexer;
use crate::transport::multiplexer::Frame;

verus! {

/// The frame that carries `part` of a payload.
pub open spec fn chunk_frame(
    stream_id: u16,
    msg_type: MsgType,
    chunk_flags: u8,
    part: Seq<u8>,
    timestamp_ns: u64,
) -> Frame {
    Frame {
        header: FrameHeader {
            stream_id,
            msg_type: msg_type.spec_code(),
            flags: chunk_flags,
            payload_len: part.len() as u32,
            timestamp_ns,
        },
        payload: part,
    }
}

/// The frames a payload is split into: full chunks first, with `LAST_CHUNK`
/// clear, then one frame with `LAST_CHUNK` set that carries what is left
/// (nothing, for an empty payload).
pub open spec fn chunk_frames(
    stream_id: u16,
    msg_type: MsgType,
    extra_flags: u8,
    payload: Seq<u8>,
    timestamp_ns: u64,
    chunk_size: nat,
) -> Seq<Frame>
    decreases payload.len(),
{
    if chunk_size == 0 || payload.len() <= chunk_size {
        seq![
            chunk_frame(
                stream_id,
                msg_type,
                extra_flags | flags::LAST_CHUNK,
                payload,
                timestamp_ns,
            ),
        ]
    } else {
        seq![
            chunk_frame(
                stream_id,
                msg_type,
                extra_flags & !flags::LAST_CHUNK,
                payload.subrange(0, chunk_size as int),
                timestamp_ns,
            ),
        ] + chunk_frames(
            stream_id,
            msg_type,
            extra_flags,
            payload.subrange(chunk_size as int, payload.len() as int),
            timestamp_ns,
            chunk_size,
        )
    }
}

/// Splits a large payload into chunks and writes them into `dst`.
///
/// Each chunk gets a `FrameHeader` with `LAST_CHUNK` set only on the final one,
/// whether or not `extra_flags` holds it. `chunk_size` is the maximum payload bytes per chunk.
pub fn split_into_chunks(
    stream_id: u16,
    msg_type: MsgType,
    extra_flags: u8,
    payload: &[u8],
    timestamp_ns: u64,
    chunk_size: usize,
    dst: &mut Vec<u8>,
)
    requires
        chunk_size > 0,
    ensures
        final(dst)@ == old(dst)@ + multiplexer::frames_wire(
            chunk_frames(
                stream_id,
                msg_type,
                extra_flags,
                payload@,
                timestamp_ns,
                chunk_size as nat,
            ),
        ),
{
    let mut offset: usize = 0;
    assert(payload@.subrange(0, payload@.len() as int) =~= payload@);
    while payload.len() - offset > chunk_size
        invariant
            chunk_size > 0,
            offset <= payload@.len(),
            dst@ + multiplexer::frames_wire(
                chunk_frames(
                    stream_id,
                    msg_type,
                    extra_flags,
                    payload@.subrange(offset as int, payload@.len() as int),
                    timestamp_ns,
                    chunk_size as nat,
                ),
            ) == old(dst)@ + multiplexer::frames_wire(
                chunk_frames(
                    stream_id,
                    msg_type,
                    extra_flags,
                    payload@,
                    timestamp_ns,
                    chunk_size as nat,
                ),
            ),
        decreases payload.len() - offset,
    {
        let end: usize = offset + chunk_size;
        let chunk = vstd::slice::slice_subrange(payload, offset, end);
        let hdr = FrameHeader::new(
            stream_id,
            msg_type,
            extra_flags & !flags::LAST_CHUNK,
            #[verifier::truncate]
            (chunk.len() as u32),
            timestamp_ns,
        );
        let ghost before = dst@;
        let ghost rest = payload@.subrange(offset as int, payload@.len() as int);
        multiplexer::encode_frame(&hdr, chunk, dst);
        proof {
            let first = chunk_frame(
                stream_id,
                msg_type,
                extra_flags & !flags::LAST_CHUNK,
                chunk@,
                timestamp_ns,
            );
            let tail = chunk_frames(
                stream_id,
                msg_type,
                extra_flags,
                payload@.subrange(end as int, payload@.len() as int),
                timestamp_ns,
                chunk_size as nat,
            );
            assert(rest.subrange(0, chunk_size as int) =~= chunk@);
            assert(rest.subrange(chunk_size as int, rest.len() as int) =~= payload@.subrange(
                end as int,
                payload@.len() as int,
            ));
            assert((seq![first] + tail).drop_first() =~= tail);
            assert(multiplexer::frames_wire(seq![first] + tail) == first.wire()
                + multiplexer::frames_wire(tail));
            assert(before + (first.wire() + multiplexer::frames_wire(tail)) =~= dst@
                + multiplexer::frames_wire(tail));
        }
        offset = end;
    }
    let chunk = vstd::slice::slice_subrange(payload, offset, payload.len());
    let hdr = FrameHeader::new(
        stream_id,
        msg_type,
        extra_flags | flags::LAST_CHUNK,
        #[verifier::truncate]
        (chunk.len() as u32),
        timestamp_ns,
    );
    let ghost before = dst@;
    multiplexer::encode_frame(&hdr, chunk, dst);
    proof {
        let last = chunk_frame(
            stream_id,
            msg_type,
            extra_flags | flags::LAST_CHUNK,
            chunk@,
            timestamp_ns,
        );
        multiplexer::lemma_frames_wire_one(last);
        assert(dst@ =~= before + last.wire());
    }
}

/// Number of chunks that a payload of the given length is split into.
pub open spec fn spec_chunk_count(payload_len: nat, chunk_size: nat) -> nat {
    if payload_len == 0 || chunk_size == 0 {
        1
    } else {
        ((payload_len + chunk_size - 1) / chunk_size as int) as nat
    }
}

/// Number of chunks that would be produced for a given payload length.
#[must_use]
pub fn chunk_count(payload_len: usize, chunk_size: usize) -> (r: usize)
    ensures
        r == spec_chunk_count(payload_len as nat, chunk_size as nat),
{
    if payload_len == 0 || chunk_size == 0 {
        return 1;
    }
    let q: usize = (payload_len - 1) / chunk_size;
    proof {
        lemma_ceil(payload_len as int, chunk_size as int);
        vstd::arithmetic::div_mod::lemma_div_is_ordered_by_denominator(
            payload_len - 1,
            1,
            chunk_size as int,
        );
    }
    q + 1
}

/// Rounding a quotient up is one more than rounding the predecessor's down.
proof fn lemma_ceil(n: int, d: int)
    requires
        n > 0,
        d > 0,
    ensures
        (n + d - 1) / d == (n - 1) / d + 1,
{
    vstd::arithmetic::div_mod::lemma_div_plus_one(n - 1, d);
}

/// Splitting a payload gives exactly `chunk_count` frames.
pub proof fn law_split_gives_chunk_count_frames(
    stream_id: u16,
    msg_type: MsgType,
    extra_flags: u8,
    payload: Seq<u8>,
    timestamp_ns: u64,
    chunk_size: nat,
)
    requires
        chunk_size > 0,
    ensures
        chunk_frames(stream_id, msg_type, extra_flags, payload, timestamp_ns, chunk_size).len()
            == spec_chunk_count(payload.len(), chunk_size),
    decreases payload.len(),
{
    let n = payload.len() as int;
    let d = chunk_size as int;
    if n == 0 {
    } else if n <= d {
        lemma_ceil(n, d);
        vstd::arithmetic::div_mod::lemma_basic_div(n - 1, d);
    } else {
        let rest = payload.subrange(d, n);
        law_split_gives_chunk_count_frames(
            stream_id,
            msg_type,
            extra_flags,
            rest,
            timestamp_ns,
            chunk_size,
        );
        vstd::arithmetic::div_mod::lemma_div_plus_one(n - d + d - 1, d);
        assert((n + d - 1) / d == (n - d + d - 1) / d + 1);
    }
}

} // verus!
