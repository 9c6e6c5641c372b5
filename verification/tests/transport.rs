use remoteway::proto::error::ProtoError;
use remoteway::proto::header::{flags, FrameHeader, MsgType};
use remoteway::transport::chunk_sender::{chunk_count, split_into_chunks};
use remoteway::transport::flow_control::FlowController;
use remoteway::transport::multiplexer::{
    encode_frame, MultiplexerError, StreamParser, MAX_PAYLOAD_LEN,
};
use remoteway::transport::ssh_transport::{
    receive_step, TransportError, TransportSender, WriterStep, FRAME_QUEUE_DEPTH,
    INCOMING_QUEUE_DEPTH, READ_BUF_SIZE,
};

// --- Chunk sender ---

fn decode_frames(mut data: &[u8]) -> Vec<(FrameHeader, Vec<u8>)> {
    let mut out = Vec::new();
    while data.len() >= FrameHeader::SIZE {
        let hdr = FrameHeader::read_from_bytes(&data[..FrameHeader::SIZE]).unwrap();
        let plen = { hdr.payload_len } as usize;
        let payload = data[FrameHeader::SIZE..FrameHeader::SIZE + plen].to_vec();
        data = &data[FrameHeader::SIZE + plen..];
        out.push((hdr, payload));
    }
    out
}

#[test]
fn only_the_final_chunk_is_the_last() {
    let mut dst = Vec::new();
    let both = flags::LAST_CHUNK | flags::COMPRESSED;
    split_into_chunks(1, MsgType::FrameUpdate, both, &[1, 2], 0, 1, &mut dst);
    assert_eq!(dst.len(), 34);
    assert_eq!(dst[3] & flags::LAST_CHUNK, 0);
    assert_ne!(dst[20] & flags::LAST_CHUNK, 0);
    // The other flags are on every chunk.
    assert_ne!(dst[3] & flags::COMPRESSED, 0);
    assert_ne!(dst[20] & flags::COMPRESSED, 0);
    let msgs = StreamParser::new().push(&dst).unwrap();
    assert_eq!(msgs.len(), 1);
    assert_eq!(msgs[0].payload_slice(), &[1, 2]);
}

#[test]
fn several_split_payloads_arrive_in_order() {
    let mut wire = Vec::new();
    for (payload, size) in [(&b"first"[..], 2), (&b""[..], 3), (&b"second"[..], 6)] {
        split_into_chunks(9, MsgType::FrameUpdate, 0, payload, 0, size, &mut wire);
    }
    let msgs = StreamParser::new().push(&wire).unwrap();
    let payloads: Vec<&[u8]> = msgs.iter().map(|m| m.payload_slice()).collect();
    assert_eq!(payloads, vec![&b"first"[..], &b""[..], &b"second"[..]]);
}

#[test]
fn a_refusal_is_final() {
    let mut parser = StreamParser::new();
    let too_long = |r| matches!(r, Err(MultiplexerError::PayloadTooLarge(u32::MAX)));
    assert!(too_long(parser.push(&[0xff; 16])));
    // What comes later is not looked at.
    let mut wire = Vec::new();
    split_into_chunks(1, MsgType::FrameUpdate, 0, b"hello", 0, 16, &mut wire);
    assert!(too_long(parser.push(&wire)));
    assert!(too_long(parser.push(&[])));
}

#[test]
fn single_chunk_small_payload() {
    let mut dst = Vec::new();
    split_into_chunks(1, MsgType::FrameUpdate, 0, b"hello", 42, 1024, &mut dst);
    let frames = decode_frames(&dst);
    assert_eq!(frames.len(), 1);
    assert_ne!(frames[0].0.flags & flags::LAST_CHUNK, 0);
    assert_eq!(frames[0].1, b"hello");
}

#[test]
fn multi_chunk_split() {
    let payload: Vec<u8> = (0..10).collect();
    let mut dst = Vec::new();
    split_into_chunks(1, MsgType::FrameUpdate, 0, &payload, 0, 3, &mut dst);
    let frames = decode_frames(&dst);
    // 10 bytes / 3 = 4 chunks (3+3+3+1)
    assert_eq!(frames.len(), 4);
    assert_eq!(frames[3].0.flags & flags::LAST_CHUNK, flags::LAST_CHUNK);
    for f in &frames[..3] {
        assert_eq!(f.0.flags & flags::LAST_CHUNK, 0);
    }
    // Reassemble and verify.
    let reassembled: Vec<u8> = frames.iter().flat_map(|f| f.1.clone()).collect();
    assert_eq!(reassembled, payload);
}

#[test]
fn empty_payload_produces_one_last_chunk_frame() {
    let mut dst = Vec::new();
    split_into_chunks(1, MsgType::AnchorFrame, 0, &[], 0, 512, &mut dst);
    let frames = decode_frames(&dst);
    assert_eq!(frames.len(), 1);
    assert_ne!(frames[0].0.flags & flags::LAST_CHUNK, 0);
    assert!(frames[0].1.is_empty());
}

#[test]
fn exact_chunk_boundary() {
    let payload = vec![0u8; 6];
    let mut dst = Vec::new();
    split_into_chunks(1, MsgType::FrameUpdate, 0, &payload, 0, 3, &mut dst);
    let frames = decode_frames(&dst);
    assert_eq!(frames.len(), 2);
}

#[test]
fn extra_flags_preserved_on_last_chunk() {
    let mut dst = Vec::new();
    split_into_chunks(
        1,
        MsgType::FrameUpdate,
        flags::COMPRESSED,
        b"data",
        0,
        1024,
        &mut dst,
    );
    let frames = decode_frames(&dst);
    assert_eq!(frames.len(), 1);
    assert_ne!(frames[0].0.flags & flags::COMPRESSED, 0);
}

#[test]
fn chunk_count_calculation() {
    assert_eq!(chunk_count(0, 512), 1);
    assert_eq!(chunk_count(512, 512), 1);
    assert_eq!(chunk_count(513, 512), 2);
    assert_eq!(chunk_count(1024, 512), 2);
    assert_eq!(chunk_count(1025, 512), 3);
}

#[test]
fn chunk_size_one() {
    let payload = b"hello";
    let mut dst = Vec::new();
    split_into_chunks(1, MsgType::FrameUpdate, 0, payload, 0, 1, &mut dst);
    let frames = decode_frames(&dst);
    assert_eq!(frames.len(), 5);
    for f in &frames[..4] {
        assert_eq!(f.0.flags & flags::LAST_CHUNK, 0);
        assert_eq!(f.1.len(), 1);
    }
    assert_ne!(frames[4].0.flags & flags::LAST_CHUNK, 0);
    let reassembled: Vec<u8> = frames.iter().flat_map(|f| f.1.clone()).collect();
    assert_eq!(reassembled, payload);
}

#[test]
fn timestamp_preserved_all_chunks() {
    let payload = vec![0u8; 100];
    let ts = 1_234_567_890u64;
    let mut dst = Vec::new();
    split_into_chunks(5, MsgType::FrameUpdate, 0, &payload, ts, 30, &mut dst);
    let frames = decode_frames(&dst);
    assert!(frames.len() > 1);
    for f in &frames {
        assert_eq!({ f.0.timestamp_ns }, ts);
    }
}

#[test]
fn stream_id_preserved_all_chunks() {
    let payload = vec![0u8; 50];
    let mut dst = Vec::new();
    split_into_chunks(42, MsgType::FrameUpdate, 0, &payload, 0, 20, &mut dst);
    let frames = decode_frames(&dst);
    for f in &frames {
        assert_eq!({ f.0.stream_id }, 42);
    }
}

#[test]
fn split_appends_and_makes_as_many_frames_as_counted() {
    for len in [0usize, 1, 6, 7, 20, 21] {
        let payload: Vec<u8> = (0..len as u8).collect();
        let mut dst = vec![9u8, 9];
        split_into_chunks(3, MsgType::Clipboard, flags::KEY_FRAME, &payload, 5, 7, &mut dst);
        assert_eq!(&dst[..2], &[9, 9]);
        let frames = decode_frames(&dst[2..]);
        assert_eq!(frames.len(), chunk_count(len, 7));
    }
}

// --- Flow control ---

#[test]
fn allows_under_watermark() {
    let mut fc = FlowController::new(1024);
    assert!(fc.should_send(512, false)); // pending = 512
    assert!(fc.should_send(511, false)); // pending = 1023
    // 1023 + 2 = 1025 > 1024 → reject.
    assert!(!fc.should_send(2, false));
    // 1023 + 1 = 1024 ≤ 1024 → allow.
    assert!(fc.should_send(1, false));
}

#[test]
fn anchor_always_passes() {
    let mut fc = FlowController::new(100);
    // Fill to capacity.
    assert!(fc.should_send(100, false)); // pending = 100
    assert!(fc.is_congested());
    // Non-anchor is rejected over the watermark.
    assert!(!fc.should_send(1, false));
    // Anchor always passes regardless.
    assert!(fc.should_send(1, true));
}

#[test]
fn on_sent_drains_pending() {
    let mut fc = FlowController::new(100);
    fc.should_send(100, false);
    assert!(fc.is_congested());
    fc.on_sent(100);
    assert!(!fc.is_congested());
    assert!(fc.should_send(50, false));
}

#[test]
fn saturating_sub_no_underflow() {
    let mut fc = FlowController::new(100);
    fc.on_sent(9999);
    assert_eq!(fc.pending_bytes(), 0);
}

#[test]
fn is_congested_systematic() {
    let mut fc = FlowController::new(100);
    assert!(!fc.is_congested());
    fc.should_send(100, false);
    assert!(fc.is_congested());
    fc.on_sent(1);
    assert!(!fc.is_congested());
    fc.should_send(1, false);
    assert!(fc.is_congested());
}

#[test]
fn rapid_cycle_1000() {
    let mut fc = FlowController::new(1_000_000);
    for _ in 0..1000 {
        assert!(fc.should_send(10, false));
        fc.on_sent(10);
    }
    assert_eq!(fc.pending_bytes(), 0);
}

#[test]
fn zero_watermark() {
    let mut fc = FlowController::new(0);
    // 0 + 0 = 0 ≤ 0 → allow.
    assert!(fc.should_send(0, false));
    // 0 + 1 = 1 > 0 → reject.
    assert!(!fc.should_send(1, false));
}

#[test]
fn anchor_accumulates_beyond_watermark() {
    let mut fc = FlowController::new(100);
    fc.should_send(100, false);
    assert!(fc.should_send(200, true)); // anchor always passes
    assert_eq!(fc.pending_bytes(), 300);
}

// --- Multiplexer ---

fn make_frame(stream_id: u16, msg_type: MsgType, flags: u8, payload: &[u8]) -> Vec<u8> {
    let hdr = FrameHeader::new(stream_id, msg_type, flags, payload.len() as u32, 0);
    let mut out = Vec::new();
    encode_frame(&hdr, payload, &mut out);
    out
}

#[test]
fn single_chunk_message() {
    let mut p = StreamParser::new();
    let data = make_frame(1, MsgType::FrameUpdate, flags::LAST_CHUNK, b"hello");
    let msgs = p.push(&data).unwrap();
    assert_eq!(msgs.len(), 1);
    assert_eq!(msgs[0].payload.as_ref(), b"hello");
}

#[test]
fn two_messages_in_one_push() {
    let mut p = StreamParser::new();
    let mut data = make_frame(1, MsgType::FrameUpdate, flags::LAST_CHUNK, b"first");
    data.extend(make_frame(
        2,
        MsgType::AnchorFrame,
        flags::LAST_CHUNK,
        b"second",
    ));
    let msgs = p.push(&data).unwrap();
    assert_eq!(msgs.len(), 2);
}

#[test]
fn partial_header_waits() {
    let mut p = StreamParser::new();
    let data = make_frame(1, MsgType::FrameUpdate, flags::LAST_CHUNK, b"x");
    // Send only 8 of the 16-byte header.
    let msgs = p.push(&data[..8]).unwrap();
    assert!(msgs.is_empty());
    let msgs = p.push(&data[8..]).unwrap();
    assert_eq!(msgs.len(), 1);
}

#[test]
fn partial_payload_waits() {
    let mut p = StreamParser::new();
    let data = make_frame(1, MsgType::FrameUpdate, flags::LAST_CHUNK, b"abcdef");
    let mid = data.len() / 2;
    let msgs = p.push(&data[..mid]).unwrap();
    assert!(msgs.is_empty());
    let msgs = p.push(&data[mid..]).unwrap();
    assert_eq!(msgs.len(), 1);
    assert_eq!(msgs[0].payload.as_ref(), b"abcdef");
}

#[test]
fn multi_chunk_reassembly() {
    let mut p = StreamParser::new();
    // Chunk 1: no LAST_CHUNK flag.
    let chunk1 = make_frame(3, MsgType::FrameUpdate, 0, b"part1-");
    // Chunk 2: LAST_CHUNK flag.
    let chunk2 = make_frame(3, MsgType::FrameUpdate, flags::LAST_CHUNK, b"part2");
    let mut msgs = p.push(&chunk1).unwrap();
    assert!(msgs.is_empty());
    msgs = p.push(&chunk2).unwrap();
    assert_eq!(msgs.len(), 1);
    assert_eq!(msgs[0].payload.as_ref(), b"part1-part2");
}

#[test]
fn interleaved_streams() {
    let mut p = StreamParser::new();
    let a1 = make_frame(1, MsgType::FrameUpdate, 0, b"a1-");
    let b1 = make_frame(2, MsgType::FrameUpdate, 0, b"b1-");
    let a2 = make_frame(1, MsgType::FrameUpdate, flags::LAST_CHUNK, b"a2");
    let b2 = make_frame(2, MsgType::FrameUpdate, flags::LAST_CHUNK, b"b2");

    let mut all = a1;
    all.extend(b1);
    all.extend(a2);
    all.extend(b2);

    let msgs = p.push(&all).unwrap();
    assert_eq!(msgs.len(), 2);
    let payloads: Vec<Vec<u8>> = msgs.iter().map(|m| m.payload.to_vec()).collect();
    assert!(payloads.contains(&b"a1-a2".to_vec()));
    assert!(payloads.contains(&b"b1-b2".to_vec()));
}

#[test]
fn oversized_payload_returns_error() {
    let mut p = StreamParser::new();
    let hdr = FrameHeader::new(
        1,
        MsgType::FrameUpdate,
        flags::LAST_CHUNK,
        MAX_PAYLOAD_LEN + 1,
        0,
    );
    let mut data = Vec::new();
    encode_frame(&hdr, &[], &mut data);
    assert!(p.push(&data).is_err());
}

#[test]
fn unknown_msg_type_returns_error() {
    let mut p = StreamParser::new();
    // Craft a header with invalid msg_type byte.
    let mut hdr = FrameHeader::new(1, MsgType::FrameUpdate, flags::LAST_CHUNK, 0, 0);
    hdr.msg_type = 0xFF;
    let mut data = Vec::new();
    encode_frame(&hdr, &[], &mut data);
    assert!(p.push(&data).is_err());
}

#[test]
fn many_concurrent_streams_32() {
    let mut p = StreamParser::new();
    let mut wire = Vec::new();
    // 32 streams, each with 2 chunks.
    for sid in 0..32u16 {
        let chunk1 = format!("s{sid}-1-");
        wire.extend(make_frame(sid, MsgType::FrameUpdate, 0, chunk1.as_bytes()));
    }
    for sid in 0..32u16 {
        let chunk2 = format!("s{sid}-2");
        wire.extend(make_frame(
            sid,
            MsgType::FrameUpdate,
            flags::LAST_CHUNK,
            chunk2.as_bytes(),
        ));
    }
    let msgs = p.push(&wire).unwrap();
    assert_eq!(msgs.len(), 32);
    for sid in 0..32u16 {
        let expected = format!("s{sid}-1-s{sid}-2");
        assert!(
            msgs.iter().any(|m| m.payload.as_ref() == expected.as_bytes()),
            "missing reassembled message for stream {sid}"
        );
    }
}

#[test]
fn byte_by_byte_push() {
    let mut p = StreamParser::new();
    let data = make_frame(1, MsgType::FrameUpdate, flags::LAST_CHUNK, b"payload");
    let mut total_msgs = Vec::new();
    for &b in &data {
        let msgs = p.push(&[b]).unwrap();
        total_msgs.extend(msgs);
    }
    assert_eq!(total_msgs.len(), 1);
    assert_eq!(total_msgs[0].payload.as_ref(), b"payload");
}

#[test]
fn in_progress_streams_tracking() {
    let mut p = StreamParser::new();
    assert_eq!(p.in_progress_streams(), 0);
    // Non-last chunk for stream 1.
    p.push(&make_frame(1, MsgType::FrameUpdate, 0, b"a"))
        .unwrap();
    assert_eq!(p.in_progress_streams(), 1);
    // Non-last chunk for stream 2.
    p.push(&make_frame(2, MsgType::FrameUpdate, 0, b"b"))
        .unwrap();
    assert_eq!(p.in_progress_streams(), 2);
    // Last chunk for stream 1.
    p.push(&make_frame(
        1,
        MsgType::FrameUpdate,
        flags::LAST_CHUNK,
        b"c",
    ))
    .unwrap();
    assert_eq!(p.in_progress_streams(), 1);
    // Last chunk for stream 2.
    p.push(&make_frame(
        2,
        MsgType::FrameUpdate,
        flags::LAST_CHUNK,
        b"d",
    ))
    .unwrap();
    assert_eq!(p.in_progress_streams(), 0);
}

#[test]
fn default_trait() {
    let p = StreamParser::default();
    assert_eq!(p.in_progress_streams(), 0);
}

#[test]
fn encode_frame_output_length() {
    let payload = b"test";
    let hdr = FrameHeader::new(0, MsgType::Ack, flags::LAST_CHUNK, payload.len() as u32, 0);
    let mut dst = Vec::new();
    encode_frame(&hdr, payload, &mut dst);
    assert_eq!(dst.len(), FrameHeader::SIZE + payload.len());
}

#[test]
fn refused_frames_say_why() {
    let mut p = StreamParser::new();
    let mut data = Vec::new();
    encode_frame(
        &FrameHeader::new(1, MsgType::Ack, flags::LAST_CHUNK, MAX_PAYLOAD_LEN + 1, 0),
        &[],
        &mut data,
    );
    let err = p.push(&data).unwrap_err();
    assert!(matches!(err, MultiplexerError::PayloadTooLarge(n) if n == MAX_PAYLOAD_LEN + 1));

    let mut q = StreamParser::new();
    let mut hdr = FrameHeader::new(1, MsgType::Ack, flags::LAST_CHUNK, 0, 0);
    hdr.msg_type = 200;
    let mut data = Vec::new();
    encode_frame(&hdr, &[], &mut data);
    let err = q.push(&data).unwrap_err();
    assert!(matches!(
        err,
        MultiplexerError::UnknownMsgType(ProtoError::UnknownMsgType(200))
    ));
    assert!(err.message().contains("0xc8"));
}

#[test]
fn a_payload_of_the_largest_size_is_accepted() {
    let mut p = StreamParser::new();
    let payload = vec![7u8; MAX_PAYLOAD_LEN as usize];
    let data = make_frame(1, MsgType::AnchorFrame, flags::LAST_CHUNK, &payload);
    let msgs = p.push(&data).unwrap();
    assert_eq!(msgs.len(), 1);
    assert_eq!(msgs[0].payload_slice(), &payload[..]);
}

#[test]
fn any_split_of_the_bytes_gives_the_same_messages() {
    let mut raw = Vec::new();
    for i in 0u8..4 {
        raw.extend(make_frame(
            u16::from(i),
            MsgType::FrameUpdate,
            flags::LAST_CHUNK,
            &vec![i; usize::from(i) * 3],
        ));
    }
    let mut whole = StreamParser::new();
    let bulk = whole.push(&raw).unwrap();
    assert_eq!(bulk.len(), 4);
    for split in 0..=raw.len() {
        let mut p = StreamParser::new();
        let mut msgs = p.push(&raw[..split]).unwrap();
        msgs.extend(p.push(&raw[split..]).unwrap());
        assert_eq!(msgs.len(), 4);
        for (i, m) in msgs.iter().enumerate() {
            assert_eq!(m.payload_slice(), bulk[i].payload_slice());
            assert_eq!(m.header.stream_id, i as u16);
        }
    }
}

#[test]
fn a_frame_between_two_chunks_comes_first() {
    let mut raw = make_frame(10, MsgType::FrameUpdate, 0, b"ab");
    raw.extend(make_frame(20, MsgType::FrameUpdate, flags::LAST_CHUNK, b"xyz"));
    raw.extend(make_frame(10, MsgType::FrameUpdate, flags::LAST_CHUNK, b"cd"));
    let mut p = StreamParser::new();
    let msgs = p.push(&raw).unwrap();
    assert_eq!(msgs.len(), 2);
    assert_eq!(msgs[0].header.stream_id, 20);
    assert_eq!(msgs[0].payload_slice(), b"xyz");
    assert_eq!(msgs[1].header.stream_id, 10);
    assert_eq!(msgs[1].payload_slice(), b"abcd");
}

#[test]
fn chunks_of_a_split_payload_arrive_as_one_message() {
    let payload: Vec<u8> = (0..1000u32).map(|i| (i * 7) as u8).collect();
    let mut wire = Vec::new();
    split_into_chunks(6, MsgType::AnchorFrame, flags::COMPRESSED, &payload, 77, 64, &mut wire);
    let mut p = StreamParser::new();
    let msgs = p.push(&wire).unwrap();
    assert_eq!(msgs.len(), 1);
    assert_eq!(msgs[0].payload_slice(), &payload[..]);
    assert_eq!(msgs[0].header.msg_type().unwrap(), MsgType::AnchorFrame);
    assert_eq!(msgs[0].header.timestamp_ns, 77);
    assert_eq!(p.in_progress_streams(), 0);
}

// --- Transport ---

#[test]
fn queue_depths_are_small() {
    assert_eq!(FRAME_QUEUE_DEPTH, 2);
    assert_eq!(INCOMING_QUEUE_DEPTH, 2);
    assert_eq!(READ_BUF_SIZE, 65536);
}

#[test]
fn input_passes_a_full_frame_queue() {
    let mut sender = TransportSender::new();
    assert!(sender.try_send_frame(vec![0u8; 16]));
    assert!(sender.try_send_frame(vec![1u8; 16]));
    // The queue is full: the next frame is dropped.
    assert!(!sender.try_send_frame(vec![2u8; 16]));
    // Input always succeeds even when frame queue is full.
    assert!(sender.send_input(vec![3u8; 16]));
    assert_eq!(sender.frame_queue_len(), 2);
    assert!(matches!(sender.next_step(), WriterStep::Write(d) if d == vec![3u8; 16]));
    assert!(matches!(sender.next_step(), WriterStep::Write(d) if d == vec![0u8; 16]));
    assert_eq!(sender.frame_queue_len(), 1);
}

#[test]
fn writer_serves_input_before_anchors_before_frames() {
    let mut sender = TransportSender::new();
    assert!(sender.try_send_frame(vec![1]));
    assert!(sender.send_anchor(vec![2]));
    assert!(sender.send_input(vec![3]));
    assert!(sender.send_anchor(vec![4]));
    sender.finish();
    let mut order = Vec::new();
    let mut last = sender.next_step();
    while let WriterStep::Write(d) = last {
        order.push(d[0]);
        last = sender.next_step();
    }
    assert!(matches!(last, WriterStep::Stop));
    assert_eq!(order, vec![3, 2, 4, 1]);
}

#[test]
fn writer_waits_while_the_queues_are_open() {
    let mut sender = TransportSender::new();
    assert!(matches!(sender.next_step(), WriterStep::Wait));
    sender.abort();
    assert!(matches!(sender.next_step(), WriterStep::Stop));
    assert!(!sender.send_input(vec![1]));
    assert!(!sender.send_anchor(vec![1]));
    assert!(!sender.try_send_frame(vec![1]));
}

#[test]
fn receiving_ends_at_the_end_of_the_stream() {
    let mut parser = StreamParser::new();
    let mut buf = make_frame(1, MsgType::FrameUpdate, flags::LAST_CHUNK, b"hello");
    let n = buf.len();
    buf.resize(READ_BUF_SIZE, 0);
    let msgs = receive_step(&mut parser, Some(n), &buf).unwrap();
    assert_eq!(msgs.len(), 1);
    assert_eq!(msgs[0].payload_slice(), b"hello");
    assert!(receive_step(&mut parser, Some(0), &buf).is_none());
    assert!(receive_step(&mut parser, None, &buf).is_none());
}

#[test]
fn receiving_ends_where_the_parser_refuses() {
    let mut parser = StreamParser::new();
    assert!(receive_step(&mut parser, Some(16), &[0xff; 16]).is_none());
}

#[test]
fn transport_errors_have_messages() {
    assert!(TransportError::Io("broken pipe".to_string()).message().contains("broken pipe"));
    assert!(!TransportError::Disconnected.message().is_empty());
    assert!(TransportError::Multiplexer(MultiplexerError::PayloadTooLarge(5))
        .message()
        .contains('5'));
    assert_eq!(
        MultiplexerError::Io("broken pipe".to_string()).message(),
        "I/O error: broken pipe"
    );
    assert_eq!(
        MultiplexerError::UnknownMsgType(ProtoError::UnknownMsgType(200)).message(),
        format!("protocol error: {}", ProtoError::UnknownMsgType(200).message())
    );
}

#[test]
fn a_parser_says_how_much_it_can_hold() {
    let mut parser = StreamParser::new();
    assert!(parser.can_hold(isize::MAX as usize));
    assert!(!parser.can_hold(isize::MAX as usize + 1));
    // A first chunk of 3 bytes stays with its stream.
    let header = FrameHeader::new(4, MsgType::FrameUpdate, 0, 3, 0);
    let mut wire = Vec::new();
    encode_frame(&header, &[1, 2, 3], &mut wire);
    assert!(parser.push(&wire).unwrap().is_empty());
    assert_eq!(parser.in_progress_streams(), 1);
    assert!(parser.can_hold(isize::MAX as usize - 3));
    assert!(!parser.can_hold(isize::MAX as usize - 2));
    // Half a header waits in the buffer.
    assert!(parser.push(&wire[..8]).unwrap().is_empty());
    assert!(parser.can_hold(isize::MAX as usize - 11));
    assert!(!parser.can_hold(isize::MAX as usize - 10));
}

// --- From the queues of one side to the messages of the other ---

fn whole_frame(stream_id: u16, msg_type: MsgType, payload: &[u8]) -> Vec<u8> {
    make_frame(stream_id, msg_type, flags::LAST_CHUNK, payload)
}

/// Write everything that waits, and read it in pieces of the read buffer's size.
fn carry(sender: &mut TransportSender, parser: &mut StreamParser) -> Vec<Vec<u8>> {
    let mut payloads = Vec::new();
    while let WriterStep::Write(data) = sender.next_step() {
        for piece in data.chunks(READ_BUF_SIZE) {
            let messages = receive_step(parser, Some(piece.len()), piece).unwrap();
            payloads.extend(messages.iter().map(|m| m.payload_slice().to_vec()));
        }
    }
    payloads
}

#[test]
fn recv_single_message() {
    let frame = whole_frame(1, MsgType::FrameUpdate, b"hello");
    let mut parser = StreamParser::new();
    let messages = receive_step(&mut parser, Some(frame.len()), &frame).unwrap();
    assert_eq!(messages[0].payload_slice(), b"hello");
}

#[test]
fn send_and_recv_roundtrip() {
    let mut client = TransportSender::new();
    let mut server = StreamParser::new();
    assert!(client.send_anchor(whole_frame(1, MsgType::FrameUpdate, b"ping")));
    assert_eq!(carry(&mut client, &mut server), vec![b"ping".to_vec()]);
}

#[test]
fn multiple_messages_in_order() {
    let mut all = Vec::new();
    for i in 0u8..5 {
        all.extend(whole_frame(1, MsgType::FrameUpdate, &[i]));
    }
    let mut parser = StreamParser::new();
    let messages = receive_step(&mut parser, Some(all.len()), &all).unwrap();
    assert_eq!(messages.len(), 5);
    for i in 0u8..5 {
        assert_eq!(messages[i as usize].payload_slice(), &[i]);
    }
}

#[test]
fn large_payload_round_trip() {
    let mut client = TransportSender::new();
    let mut server = StreamParser::new();
    let payload = vec![0xAB_u8; 256 * 1024];
    assert!(client.send_anchor(whole_frame(1, MsgType::FrameUpdate, &payload)));
    let received = carry(&mut client, &mut server);
    assert_eq!(received.len(), 1);
    assert_eq!(received[0].len(), 256 * 1024);
    assert!(received[0].iter().all(|&b| b == 0xAB));
}

#[test]
fn frame_queue_len_after_send() {
    let mut sender = TransportSender::new();
    assert_eq!(sender.frame_queue_len(), 0);
    sender.try_send_frame(vec![1]);
    assert_eq!(sender.frame_queue_len(), 1);
    sender.try_send_frame(vec![2]);
    assert_eq!(sender.frame_queue_len(), 2);
}
