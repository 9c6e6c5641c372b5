use remoteway::proto::clipboard::{ClipboardHeader, ClipboardMime};
use remoteway::proto::cursor::{CursorMove, CursorUpdate};
use remoteway::proto::error::ProtoError;
use remoteway::proto::frame::{FrameMeta, WireRegion};
use remoteway::proto::handshake::{capture_flags, compress_flags, HandshakePayload};
use remoteway::proto::header::{flags, FrameHeader, MsgType};
use remoteway::proto::input::{
    InputEvent, InputKind, KeyEvent, PointerAxis, PointerButton, PointerMotion,
};
use remoteway::proto::monitor::{FractionalScale, MonitorInfo};
use remoteway::proto::resize::ResizePayload;
use remoteway::proto::target_resolution::TargetResolutionPayload;

// --- Clipboard ---

#[test]
fn clipboard_size_is_8() {
    assert_eq!(ClipboardHeader::SIZE, 8);
}

#[test]
fn clipboard_round_trip() {
    let h = ClipboardHeader::new(ClipboardMime::TextPlain, 0, 1024);
    let bytes = h.as_bytes();
    let decoded = ClipboardHeader::read_from_bytes(&bytes).unwrap();
    assert_eq!(decoded.mime().unwrap(), ClipboardMime::TextPlain);
    assert_eq!({ decoded.direction }, 0);
    assert_eq!({ decoded.data_len }, 1024);
}

#[test]
fn all_mime_types() {
    for raw in 0u8..=2 {
        assert!(ClipboardMime::try_from(raw).is_ok());
    }
    assert!(ClipboardMime::try_from(3).is_err());
}

#[test]
fn clipboard_bytes_are_little_endian() {
    let h = ClipboardHeader::new(ClipboardMime::ImagePng, 1, 0x0102_0304);
    assert_eq!(h.as_bytes(), vec![2, 1, 0, 0, 4, 3, 2, 1]);
    assert_eq!(ClipboardMime::try_from(9).unwrap_err(), 9);
}

// --- Cursor ---

#[test]
fn cursor_move_size() {
    assert_eq!(std::mem::size_of::<CursorMove>(), 12);
    assert_eq!(CursorMove::SIZE, 12);
}

#[test]
fn cursor_update_size() {
    assert_eq!(std::mem::size_of::<CursorUpdate>(), 20);
    assert_eq!(CursorUpdate::SIZE, 20);
}

#[test]
fn cursor_move_round_trip() {
    let mv = CursorMove {
        surface_id: 1,
        _pad: 0,
        x: 100.0f32.to_bits(),
        y: 200.0f32.to_bits(),
    };
    let bytes = mv.as_bytes();
    let decoded = CursorMove::read_from_bytes(&bytes).unwrap();
    assert_eq!({ decoded.surface_id }, 1);
    assert_eq!(f32::from_bits(decoded.x), 100.0);
}

#[test]
fn cursor_update_round_trip() {
    let cu = CursorUpdate {
        surface_id: 5,
        hotspot_x: -3,
        hotspot_y: 7,
        has_bitmap: 1,
        _pad: 0,
        bitmap_width: 32,
        bitmap_height: 32,
        x: 100.5f32.to_bits(),
        y: 200.0f32.to_bits(),
    };
    let bytes = cu.as_bytes();
    let decoded = CursorUpdate::read_from_bytes(&bytes).unwrap();
    assert_eq!({ decoded.surface_id }, 5);
    assert_eq!({ decoded.hotspot_x }, -3);
    assert_eq!({ decoded.hotspot_y }, 7);
    assert_eq!({ decoded.has_bitmap }, 1);
    assert_eq!({ decoded.bitmap_width }, 32);
    assert_eq!({ decoded.bitmap_height }, 32);
    assert_eq!(f32::from_bits(decoded.x), 100.5);
    assert_eq!(f32::from_bits(decoded.y), 200.0);
}

#[test]
fn cursor_update_no_bitmap() {
    let cu = CursorUpdate {
        surface_id: 1,
        hotspot_x: 0,
        hotspot_y: 0,
        has_bitmap: 0,
        _pad: 0,
        bitmap_width: 0,
        bitmap_height: 0,
        x: 50.0f32.to_bits(),
        y: 60.0f32.to_bits(),
    };
    let bytes = cu.as_bytes();
    let decoded = CursorUpdate::read_from_bytes(&bytes).unwrap();
    assert_eq!({ decoded.has_bitmap }, 0);
    assert_eq!({ decoded.bitmap_width }, 0);
}

#[test]
fn cursor_move_negative_coords() {
    let mv = CursorMove {
        surface_id: 0,
        _pad: 0,
        x: (-50.0f32).to_bits(),
        y: (-100.5f32).to_bits(),
    };
    let bytes = mv.as_bytes();
    let decoded = CursorMove::read_from_bytes(&bytes).unwrap();
    assert_eq!(f32::from_bits(decoded.x), -50.0);
    assert_eq!(f32::from_bits(decoded.y), -100.5);
}

#[test]
fn cursor_update_negative_hotspot() {
    let cu = CursorUpdate {
        surface_id: 0,
        hotspot_x: -10,
        hotspot_y: -20,
        has_bitmap: 0,
        _pad: 0,
        bitmap_width: 0,
        bitmap_height: 0,
        x: 0.0f32.to_bits(),
        y: 0.0f32.to_bits(),
    };
    let bytes = cu.as_bytes();
    let decoded = CursorUpdate::read_from_bytes(&bytes).unwrap();
    assert_eq!({ decoded.hotspot_x }, -10);
    assert_eq!({ decoded.hotspot_y }, -20);
}

#[test]
fn cursor_update_bytes_hold_negative_numbers_in_twos_complement() {
    let cu = CursorUpdate {
        surface_id: 0x0102,
        hotspot_x: -1,
        hotspot_y: i16::MIN,
        has_bitmap: 1,
        _pad: 0,
        bitmap_width: 3,
        bitmap_height: 4,
        x: 1.0f32.to_bits(),
        y: 0,
    };
    assert_eq!(
        cu.as_bytes(),
        vec![2, 1, 0xff, 0xff, 0x00, 0x80, 1, 0, 3, 0, 4, 0, 0, 0, 0x80, 0x3f, 0, 0, 0, 0]
    );
}

// --- Frame ---

#[test]
fn frame_meta_size() {
    assert_eq!(FrameMeta::SIZE, 16);
}

#[test]
fn wire_region_size() {
    assert_eq!(WireRegion::SIZE, 20);
}

#[test]
fn frame_meta_round_trip() {
    let meta = FrameMeta::new(1920, 1080, 7680, 3);
    let bytes = meta.as_bytes();
    let decoded = FrameMeta::read_from_bytes(&bytes).unwrap();
    assert_eq!({ decoded.width }, 1920);
    assert_eq!({ decoded.height }, 1080);
    assert_eq!({ decoded.stride }, 7680);
    assert_eq!({ decoded.num_regions }, 3);
}

#[test]
fn wire_region_round_trip() {
    let wr = WireRegion::new(10, 20, 100, 50, 4096);
    let bytes = wr.as_bytes();
    let decoded = WireRegion::read_from_bytes(&bytes).unwrap();
    assert_eq!({ decoded.x }, 10);
    assert_eq!({ decoded.y }, 20);
    assert_eq!({ decoded.w }, 100);
    assert_eq!({ decoded.h }, 50);
    assert_eq!({ decoded.compressed_size }, 4096);
}

#[test]
fn serialize_deserialize_sequence() {
    let meta = FrameMeta::new(3840, 2160, 15360, 2);
    let r0 = WireRegion::new(0, 0, 1920, 1080, 512);
    let r1 = WireRegion::new(1920, 0, 1920, 1080, 1024);

    let mut buf = Vec::new();
    buf.extend_from_slice(&meta.as_bytes());
    buf.extend_from_slice(&r0.as_bytes());
    buf.extend_from_slice(&r1.as_bytes());

    assert_eq!(buf.len(), FrameMeta::SIZE + 2 * WireRegion::SIZE);

    let parsed_meta = FrameMeta::read_from_bytes(&buf[..FrameMeta::SIZE]).unwrap();
    assert_eq!({ parsed_meta.num_regions }, 2);

    let off1 = FrameMeta::SIZE;
    let pr0 = WireRegion::read_from_bytes(&buf[off1..off1 + WireRegion::SIZE]).unwrap();
    assert_eq!({ pr0.compressed_size }, 512);

    let off2 = off1 + WireRegion::SIZE;
    let pr1 = WireRegion::read_from_bytes(&buf[off2..off2 + WireRegion::SIZE]).unwrap();
    assert_eq!({ pr1.compressed_size }, 1024);
}

#[test]
fn a_payload_of_another_size_is_not_read() {
    assert!(FrameMeta::read_from_bytes(&[0; 15]).is_none());
    assert!(FrameMeta::read_from_bytes(&[0; 17]).is_none());
    assert!(WireRegion::read_from_bytes(&[0; 19]).is_none());
    assert!(FrameHeader::read_from_bytes(&[]).is_none());
    assert!(InputEvent::read_from_bytes(&[0; 12]).is_none());
}

// --- Handshake ---

#[test]
fn handshake_is_8_bytes() {
    assert_eq!(std::mem::size_of::<HandshakePayload>(), 8);
    assert_eq!(HandshakePayload::SIZE, 8);
}

#[test]
fn handshake_round_trip() {
    let hs = HandshakePayload::new(
        capture_flags::WLR_SCREENCOPY | capture_flags::EXT_IMAGE_CAPTURE,
        compress_flags::LZ4,
    );
    let bytes = hs.as_bytes();
    let decoded = HandshakePayload::read_from_bytes(&bytes).unwrap();
    assert_eq!({ decoded.version }, HandshakePayload::PROTOCOL_VERSION);
    assert_ne!(decoded.capture_flags & capture_flags::WLR_SCREENCOPY, 0);
    assert_ne!(decoded.compress_flags & compress_flags::LZ4, 0);
}

#[test]
fn capture_flags_no_overlap() {
    assert_eq!(
        capture_flags::WLR_SCREENCOPY & capture_flags::EXT_IMAGE_CAPTURE,
        0
    );
}

#[test]
fn compress_flags_no_overlap() {
    assert_eq!(compress_flags::LZ4 & compress_flags::ZSTD, 0);
}

#[test]
fn protocol_version_is_one() {
    assert_eq!(HandshakePayload::PROTOCOL_VERSION, 1);
}

#[test]
fn new_sets_version_automatically() {
    let hs = HandshakePayload::new(0, 0);
    assert_eq!({ hs.version }, HandshakePayload::PROTOCOL_VERSION);
}

#[test]
fn reserved_field_zeroed() {
    let hs = HandshakePayload::new(0xFF, 0xFF);
    assert_eq!(hs._reserved, [0; 4]);
}

// --- Header ---

#[test]
fn size_is_16_bytes() {
    assert_eq!(std::mem::size_of::<FrameHeader>(), 16);
}

#[test]
fn round_trip_bytes() {
    let hdr = FrameHeader::new(1, MsgType::FrameUpdate, flags::COMPRESSED, 1024, 999_000);
    let bytes = hdr.as_bytes();
    assert_eq!(bytes.len(), 16);
    let decoded = FrameHeader::read_from_bytes(&bytes).unwrap();
    assert_eq!({ decoded.stream_id }, 1u16.to_le());
    assert_eq!({ decoded.payload_len }, 1024u32.to_le());
    assert_eq!({ decoded.timestamp_ns }, 999_000u64.to_le());
}

#[test]
fn msg_type_round_trip() {
    for raw in 0u8..=8 {
        let mt = MsgType::try_from(raw).unwrap();
        assert_eq!(mt as u8, raw);
        assert_eq!(mt.code(), raw);
    }
    assert!(MsgType::try_from(9u8).is_err());
}

#[test]
fn flags_constants_no_overlap() {
    assert_eq!(flags::COMPRESSED & flags::LAST_CHUNK, 0);
    assert_eq!(flags::COMPRESSED & flags::KEY_FRAME, 0);
    assert_eq!(flags::LAST_CHUNK & flags::KEY_FRAME, 0);
}

#[test]
fn new_all_msg_types() {
    let types = [
        MsgType::FrameUpdate,
        MsgType::AnchorFrame,
        MsgType::InputEvent,
        MsgType::CursorMove,
        MsgType::Handshake,
        MsgType::Ack,
        MsgType::Resize,
        MsgType::Clipboard,
        MsgType::TargetResolution,
    ];
    for mt in types {
        let hdr = FrameHeader::new(0, mt, 0, 0, 0);
        assert_eq!(hdr.msg_type().unwrap(), mt);
    }
}

#[test]
fn size_const_matches_sizeof() {
    assert_eq!(FrameHeader::SIZE, std::mem::size_of::<FrameHeader>());
}

#[test]
fn header_bytes_are_little_endian() {
    let hdr = FrameHeader::new(0x0102, MsgType::Ack, 7, 0x0a0b_0c0d, 0x0102_0304_0506_0708);
    assert_eq!(
        hdr.as_bytes(),
        vec![2, 1, 5, 7, 0x0d, 0x0c, 0x0b, 0x0a, 8, 7, 6, 5, 4, 3, 2, 1]
    );
}

#[test]
fn frame_header_bytes_round_trip_at_the_ends_of_the_ranges() {
    let flag_sets = [
        0u8,
        flags::COMPRESSED,
        flags::LAST_CHUNK,
        flags::KEY_FRAME,
        flags::COMPRESSED | flags::LAST_CHUNK,
        flags::COMPRESSED | flags::KEY_FRAME | flags::LAST_CHUNK,
    ];
    for stream_id in [0u16, 1, 255, 256, 65535] {
        for msg_type in 0u8..=8 {
            for flag in flag_sets {
                for payload_len in [0u32, 1, 4_194_304, u32::MAX] {
                    for ts in [0u64, 1 << 32, u64::MAX] {
                        let hdr = FrameHeader {
                            stream_id,
                            msg_type,
                            flags: flag,
                            payload_len,
                            timestamp_ns: ts,
                        };
                        let decoded = FrameHeader::read_from_bytes(&hdr.as_bytes()).unwrap();
                        assert_eq!(decoded.stream_id, stream_id);
                        assert_eq!(decoded.msg_type, msg_type);
                        assert_eq!(decoded.flags, flag);
                        assert_eq!(decoded.payload_len, payload_len);
                        assert_eq!(decoded.timestamp_ns, ts);
                    }
                }
            }
        }
    }
}

#[test]
fn unknown_msg_type_says_which() {
    for raw in 9u8..=255 {
        let mut hdr = FrameHeader::new(1, MsgType::FrameUpdate, 0, 0, 0);
        hdr.msg_type = raw;
        assert_eq!(hdr.msg_type().unwrap_err(), ProtoError::UnknownMsgType(raw));
    }
    assert_eq!(
        ProtoError::UnknownMsgType(0xab).message(),
        "unknown message type: 0xab"
    );
    assert_eq!(
        ProtoError::UnknownMsgType(9).message(),
        "unknown message type: 0x09"
    );
    assert_eq!(ProtoError::from(17), ProtoError::UnknownMsgType(17));
}

// --- Input ---

#[test]
fn input_event_is_16_bytes() {
    assert_eq!(std::mem::size_of::<InputEvent>(), 16);
    assert_eq!(InputEvent::SIZE, 16);
}

#[test]
fn pointer_motion_round_trip() {
    let motion = PointerMotion {
        surface_id: 2,
        _pad: 0,
        x: 123.5f32.to_bits(),
        y: 456.0f32.to_bits(),
    };
    let ev = InputEvent::pointer_motion(motion);
    assert_eq!(ev.kind().unwrap(), InputKind::PointerMotion);
    let decoded = PointerMotion::read_from_bytes(&ev.payload[..PointerMotion::SIZE]).unwrap();
    assert_eq!({ decoded.surface_id }, 2);
    assert_eq!(f32::from_bits(decoded.x), 123.5);
}

#[test]
fn key_event_round_trip() {
    let key = KeyEvent { key: 30, state: 1 };
    let ev = InputEvent::key(key);
    assert_eq!(ev.kind().unwrap(), InputKind::Key);
    let decoded = KeyEvent::read_from_bytes(&ev.payload[..KeyEvent::SIZE]).unwrap();
    assert_eq!({ decoded.key }, 30);
    assert_eq!({ decoded.state }, 1);
}

#[test]
fn unknown_kind_returns_err() {
    let mut ev = InputEvent::key(KeyEvent { key: 1, state: 0 });
    ev.kind = 99;
    assert!(ev.kind().is_err());
}

#[test]
fn all_events_serialize_to_bytes() {
    let events = [
        InputEvent::pointer_motion(PointerMotion {
            surface_id: 0,
            _pad: 0,
            x: 0.0f32.to_bits(),
            y: 0.0f32.to_bits(),
        }),
        InputEvent::pointer_button(PointerButton {
            button: 0x110,
            state: 1,
        }),
        InputEvent::pointer_axis(PointerAxis {
            axis: 0,
            _pad: [0; 3],
            value: 1.0f32.to_bits(),
        }),
        InputEvent::key(KeyEvent { key: 1, state: 1 }),
    ];
    for ev in &events {
        assert_eq!(ev.as_bytes().len(), 16);
    }
}

#[test]
fn pointer_button_btn_left_round_trip() {
    let btn = PointerButton {
        button: 0x110, // BTN_LEFT
        state: 1,
    };
    let ev = InputEvent::pointer_button(btn);
    assert_eq!(ev.kind().unwrap(), InputKind::PointerButton);
    let decoded = PointerButton::read_from_bytes(&ev.payload[..PointerButton::SIZE]).unwrap();
    assert_eq!({ decoded.button }, 0x110);
    assert_eq!({ decoded.state }, 1);
}

#[test]
fn pointer_button_btn_right_released() {
    let btn = PointerButton {
        button: 0x111, // BTN_RIGHT
        state: 0,
    };
    let ev = InputEvent::pointer_button(btn);
    let decoded = PointerButton::read_from_bytes(&ev.payload[..PointerButton::SIZE]).unwrap();
    assert_eq!({ decoded.button }, 0x111);
    assert_eq!({ decoded.state }, 0);
}

#[test]
fn pointer_axis_vertical_round_trip() {
    let axis = PointerAxis {
        axis: 0,
        _pad: [0; 3],
        value: 15.5f32.to_bits(),
    };
    let ev = InputEvent::pointer_axis(axis);
    assert_eq!(ev.kind().unwrap(), InputKind::PointerAxis);
    let decoded = PointerAxis::read_from_bytes(&ev.payload[..PointerAxis::SIZE]).unwrap();
    assert_eq!({ decoded.axis }, 0);
    assert_eq!(f32::from_bits(decoded.value), 15.5);
}

#[test]
fn pointer_axis_horizontal_negative() {
    let axis = PointerAxis {
        axis: 1,
        _pad: [0; 3],
        value: (-3.0f32).to_bits(),
    };
    let ev = InputEvent::pointer_axis(axis);
    let decoded = PointerAxis::read_from_bytes(&ev.payload[..PointerAxis::SIZE]).unwrap();
    assert_eq!({ decoded.axis }, 1);
    assert_eq!(f32::from_bits(decoded.value), -3.0);
}

#[test]
fn unified_as_bytes_from_bytes_all_kinds() {
    let events = [
        InputEvent::pointer_motion(PointerMotion {
            surface_id: 1,
            _pad: 0,
            x: 10.0f32.to_bits(),
            y: 20.0f32.to_bits(),
        }),
        InputEvent::pointer_button(PointerButton {
            button: 0x110,
            state: 1,
        }),
        InputEvent::pointer_axis(PointerAxis {
            axis: 0,
            _pad: [0; 3],
            value: 5.0f32.to_bits(),
        }),
        InputEvent::key(KeyEvent { key: 28, state: 2 }),
    ];
    let expected_kinds = [
        InputKind::PointerMotion,
        InputKind::PointerButton,
        InputKind::PointerAxis,
        InputKind::Key,
    ];
    for (ev, expected) in events.iter().zip(expected_kinds.iter()) {
        let bytes = ev.as_bytes();
        let decoded = InputEvent::read_from_bytes(&bytes).unwrap();
        assert_eq!(decoded.kind().unwrap(), *expected);
        assert_eq!(decoded.as_bytes(), ev.as_bytes());
    }
}

#[test]
fn sub_struct_sizes() {
    assert_eq!(std::mem::size_of::<PointerMotion>(), 12);
    assert_eq!(std::mem::size_of::<PointerButton>(), 8);
    assert_eq!(std::mem::size_of::<PointerAxis>(), 8);
    assert_eq!(std::mem::size_of::<KeyEvent>(), 8);
    assert_eq!(PointerMotion::SIZE, 12);
    assert_eq!(PointerButton::SIZE, 8);
    assert_eq!(PointerAxis::SIZE, 8);
    assert_eq!(KeyEvent::SIZE, 8);
}

#[test]
fn key_event_bytes_are_exact() {
    let ev = InputEvent::key(KeyEvent { key: 0x1234, state: 2 });
    assert_eq!(
        ev.as_bytes(),
        vec![InputKind::Key.code(), 0, 0, 0, 0x34, 0x12, 0, 0, 2, 0, 0, 0, 0, 0, 0, 0]
    );
}

#[test]
fn unknown_input_kinds_are_handed_back() {
    for raw in 4u8..=255 {
        let mut ev = InputEvent::key(KeyEvent { key: 0, state: 0 });
        ev.kind = raw;
        assert_eq!(ev.kind().unwrap_err(), raw);
    }
    for raw in 0u8..4 {
        assert_eq!(InputKind::try_from(raw).unwrap().code(), raw);
    }
}

// --- Monitor ---

#[test]
fn monitor_info_size() {
    assert_eq!(MonitorInfo::SIZE, 24);
}

#[test]
fn monitor_info_round_trip() {
    let m = MonitorInfo::new(1, 0, 0, 1920, 1080, 60000, 1);
    let bytes = m.as_bytes();
    let decoded = MonitorInfo::read_from_bytes(&bytes).unwrap();
    assert_eq!({ decoded.stream_id }, 1);
    assert_eq!({ decoded.width }, 1920);
    assert_eq!({ decoded.height }, 1080);
    assert_eq!({ decoded.refresh_mhz }, 60000);
    assert_eq!({ decoded.scale }, 1);
}

#[test]
fn fractional_scale_size() {
    assert_eq!(FractionalScale::SIZE, 4);
}

#[test]
fn monitor_left_of_the_primary_round_trips() {
    let m = MonitorInfo::new(2, -1920, -1, 1920, 1080, 59_940, 2);
    let decoded = MonitorInfo::read_from_bytes(&m.as_bytes()).unwrap();
    assert_eq!(decoded.x, -1920);
    assert_eq!(decoded.y, -1);
    let s = FractionalScale::new(3, 180);
    assert_eq!(s.as_bytes(), vec![3, 0, 180, 0]);
}

// --- Resize ---

#[test]
fn size_is_12() {
    assert_eq!(ResizePayload::SIZE, 12);
}

#[test]
fn resize_round_trip() {
    let r = ResizePayload::new(1, 1920, 1080);
    let bytes = r.as_bytes();
    let decoded = ResizePayload::read_from_bytes(&bytes).unwrap();
    assert_eq!({ decoded.surface_id }, 1);
    assert_eq!({ decoded.width }, 1920);
    assert_eq!({ decoded.height }, 1080);
}

// --- Target resolution ---

#[test]
fn target_resolution_size_is_8() {
    assert_eq!(std::mem::size_of::<TargetResolutionPayload>(), 8);
    assert_eq!(TargetResolutionPayload::SIZE, 8);
}

#[test]
fn target_resolution_round_trip() {
    let p = TargetResolutionPayload::new(1920, 1080);
    let bytes = p.as_bytes();
    let decoded = TargetResolutionPayload::read_from_bytes(&bytes).unwrap();
    assert_eq!({ decoded.width }, 1920);
    assert_eq!({ decoded.height }, 1080);
}

#[test]
fn zero_means_native() {
    let p = TargetResolutionPayload::new(0, 0);
    assert_eq!({ p.width }, 0);
    assert_eq!({ p.height }, 0);
}
