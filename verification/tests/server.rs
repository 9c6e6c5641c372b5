use remoteway::proto::frame::{FrameMeta, WireRegion};
use remoteway::proto::handshake::{capture_flags, compress_flags, HandshakePayload};
use remoteway::proto::header::{flags, FrameHeader, MsgType};
use remoteway::proto::input::{InputEvent, InputKind, KeyEvent};
use remoteway::proto::target_resolution::TargetResolutionPayload;
use remoteway::server::capture::{
    create_capture_backend, create_capture_backend_for_child, determine_capture_mode,
    not_found_context, AttemptError, CaptureError, CaptureRefusal, CaptureRequest, Retry,
    RetryStep, MAX_RETRIES, RETRY_INTERVAL_MS,
};
use remoteway::server::cli::{CaptureBackendArg, CompressArg, CompressorKind, DownscaleFilterArg};
use remoteway::server::damage::{stripe_full_frame, DamageRect};
use remoteway::server::dispatch::{dispatch, Dispatch};
use remoteway::server::downscale::{append_box_row, downscale_box, downscale_nearest, Scaling};
use remoteway::server::frame_loop::{
    next_step, package, scale_frame, FrameLoop, FrameSize, LoopStep, ANCHOR_INTERVAL, CHUNK_SIZE,
    POLL_INTERVAL_MS, PRIMARY_STREAM,
};
use remoteway::server::payload::{build_handshake, serialize_frame_payload, CompressedFrame};
use remoteway::server::session::{
    EndReason, Session, SessionAction, SessionError, SessionEvent,
};
use remoteway::transport::multiplexer::{encode_frame, StreamParser};
use std::cell::Cell;

// --- Retry ---

/// What a run of attempts comes to, with its error's text and context.
fn run_attempts<F: FnMut() -> Result<&'static str, AttemptError>>(
    mut attempt: F,
    what: &str,
    max_retries: u32,
) -> Result<&'static str, String> {
    let mut retry = Retry::new(max_retries);
    loop {
        match attempt() {
            Ok(name) => return Ok(name),
            Err(error) => {
                let text = match &error {
                    AttemptError::Capture(e) => e.message(),
                    AttemptError::Other(e) => e.clone(),
                };
                match retry.on_failure(&error) {
                    RetryStep::GiveUp => return Err(text),
                    RetryStep::Exhausted => {
                        return Err(format!("{}: {text}", not_found_context(what)));
                    }
                    RetryStep::Wait { .. } => {}
                }
            }
        }
    }
}

#[test]
fn a_reported_error_answers_for_itself() {
    for retriable in [true, false] {
        let error = CaptureError::Reported {
            text: "dbus: no portal".to_string(),
            retriable,
        };
        assert_eq!(error.is_retriable(), retriable);
        assert_eq!(error.message(), "dbus: no portal");
        let step = Retry::new(5).on_failure(&AttemptError::Capture(error));
        assert_eq!(matches!(step, RetryStep::GiveUp), !retriable);
    }
}

#[test]
fn retry_succeeds_immediately() {
    let result = run_attempts(|| Ok("mock"), "test", 5);
    assert!(result.is_ok());
    assert_eq!(result.unwrap(), "mock");
}

#[test]
fn retry_fails_then_succeeds() {
    let attempt = Cell::new(0u32);
    let result = run_attempts(
        || {
            let n = attempt.get();
            attempt.set(n + 1);
            if n < 3 {
                // Retriable error (CaptureFailed).
                Err(AttemptError::Capture(CaptureError::CaptureFailed(
                    "not ready yet".into(),
                )))
            } else {
                Ok("mock")
            }
        },
        "test",
        10,
    );
    assert!(result.is_ok());
    assert_eq!(attempt.get(), 4); // 3 failures + 1 success
}

#[test]
fn retry_bails_on_non_retriable_error() {
    let attempt = Cell::new(0u32);
    let result = run_attempts(
        || {
            attempt.set(attempt.get() + 1);
            // NoBackend is a permanent (non-retriable) error.
            Err(AttemptError::Capture(CaptureError::NoBackend))
        },
        "test",
        50,
    );
    assert!(result.is_err());
    // Must bail on the very first attempt — no retries.
    assert_eq!(attempt.get(), 1);
    let msg = result.err().unwrap();
    assert!(
        msg.contains("no suitable capture protocol"),
        "unexpected error: {msg}"
    );
}

#[test]
fn retry_exhausts_all_attempts() {
    let attempt = Cell::new(0u32);
    let result = run_attempts(
        || {
            attempt.set(attempt.get() + 1);
            Err(AttemptError::Capture(CaptureError::CaptureFailed(
                "transient".into(),
            )))
        },
        "child window",
        5,
    );
    assert!(result.is_err());
    assert_eq!(attempt.get(), 5);
    let msg = result.err().unwrap();
    assert!(
        msg.contains("not found after 5 s"),
        "unexpected error: {msg}"
    );
}

#[test]
fn retry_bails_on_session_ended() {
    let attempt = Cell::new(0u32);
    let result = run_attempts(
        || {
            attempt.set(attempt.get() + 1);
            Err(AttemptError::Capture(CaptureError::SessionEnded))
        },
        "test",
        10,
    );
    assert!(result.is_err());
    assert_eq!(attempt.get(), 1);
}

#[test]
fn retry_bails_on_output_not_found() {
    let attempt = Cell::new(0u32);
    let result = run_attempts(
        || {
            attempt.set(attempt.get() + 1);
            Err(AttemptError::Capture(CaptureError::OutputNotFound(
                "DP-1".into(),
            )))
        },
        "test",
        10,
    );
    assert!(result.is_err());
    assert_eq!(attempt.get(), 1);
}

#[test]
fn retry_non_capture_error_is_retried() {
    // An error that is NOT a CaptureError should be retried.
    let attempt = Cell::new(0u32);
    let result = run_attempts(
        || {
            let n = attempt.get();
            attempt.set(n + 1);
            if n < 2 {
                Err(AttemptError::Other("transient I/O error".into()))
            } else {
                Ok("mock")
            }
        },
        "test",
        10,
    );
    assert!(result.is_ok());
    assert_eq!(attempt.get(), 3);
}

#[test]
fn retry_announces_every_tenth_failure() {
    let mut retry = Retry::new(MAX_RETRIES);
    let error = AttemptError::Other("not yet".into());
    let mut announced = Vec::new();
    for i in 1..50u32 {
        if retry.on_failure(&error) == (RetryStep::Wait { announce: true }) {
            announced.push(i);
        }
    }
    assert_eq!(announced, vec![10, 20, 30, 40]);
    assert_eq!(retry.on_failure(&error), RetryStep::Exhausted);
    // 50 attempts of 100 ms are the 5 s of the message.
    assert_eq!(u64::from(MAX_RETRIES) * RETRY_INTERVAL_MS, 5000);
}

// --- Capture mode ---

#[test]
fn mode_auto_detect_child() {
    // command present, no app_id => auto-detect child
    let (auto, explicit) = determine_capture_mode(None, &["firefox".to_string()]);
    assert!(auto);
    assert!(!explicit);
}

#[test]
fn mode_explicit_app_id_launch() {
    // command present, app_id present => explicit app_id launch
    let (auto, explicit) =
        determine_capture_mode(Some("org.mozilla.firefox"), &["firefox".to_string()]);
    assert!(!auto);
    assert!(explicit);
}

#[test]
fn mode_no_command_with_app_id() {
    // no command, app_id present => capture by app_id
    let (auto, explicit) = determine_capture_mode(Some("org.mozilla.firefox"), &[]);
    assert!(!auto);
    assert!(!explicit);
}

#[test]
fn mode_no_command_no_app_id() {
    // no command, no app_id => capture default output
    let (auto, explicit) = determine_capture_mode(None, &[]);
    assert!(!auto);
    assert!(!explicit);
}

#[test]
fn mode_multi_arg_command() {
    let (auto, explicit) =
        determine_capture_mode(None, &["firefox".to_string(), "--headless".to_string()]);
    assert!(auto);
    assert!(!explicit);
}

#[test]
fn an_app_id_needs_a_backend_that_captures_windows() {
    let refused = create_capture_backend(&CaptureBackendArg::WlrScreencopy, None, Some("app"));
    assert!(matches!(refused, Err(CaptureRefusal::AppIdNeedsWindowCapture)));
    let portal = create_capture_backend(&CaptureBackendArg::Portal, None, Some("app"));
    assert!(matches!(portal, Ok(CaptureRequest::Portal { window: true })));
    let window = create_capture_backend(&CaptureBackendArg::Auto, Some("DP-1"), Some("app"));
    assert!(matches!(window, Ok(CaptureRequest::Toplevel { app_id }) if app_id == "app"));
}

#[test]
fn without_an_app_id_an_output_is_captured() {
    let auto = create_capture_backend(&CaptureBackendArg::Auto, Some("DP-1"), None);
    assert!(matches!(auto, Ok(CaptureRequest::Detect { output: Some(o) }) if o == "DP-1"));
    let wlr = create_capture_backend(&CaptureBackendArg::WlrScreencopy, None, None);
    assert!(matches!(wlr, Ok(CaptureRequest::WlrScreencopy { output: None })));
    let ext = create_capture_backend(&CaptureBackendArg::ExtImageCapture, Some("X"), None);
    assert!(matches!(ext, Ok(CaptureRequest::ExtImageCapture { output: Some(o) }) if o == "X"));
    let portal = create_capture_backend(&CaptureBackendArg::Portal, None, None);
    assert!(matches!(portal, Ok(CaptureRequest::Portal { window: false })));
}

#[test]
fn a_child_is_captured_by_its_window() {
    let known = vec!["a".to_string(), "b".to_string()];
    let refused = create_capture_backend_for_child(&CaptureBackendArg::WlrScreencopy, &known);
    match refused {
        Err(e) => assert!(e.message().contains("wlr-screencopy")),
        Ok(_) => panic!("wlr-screencopy cannot capture a window"),
    }
    let auto = create_capture_backend_for_child(&CaptureBackendArg::Auto, &known);
    assert!(matches!(auto, Ok(CaptureRequest::NewToplevel { known: k }) if k == known));
    let portal = create_capture_backend_for_child(&CaptureBackendArg::Portal, &known);
    assert!(matches!(portal, Ok(CaptureRequest::Portal { window: true })));
}

#[test]
fn capture_errors_know_whether_they_pass() {
    assert!(CaptureError::CaptureFailed("x".into()).is_retriable());
    assert!(!CaptureError::NoBackend.is_retriable());
    assert!(!CaptureError::SessionEnded.is_retriable());
    assert!(!CaptureError::OutputNotFound("DP-1".into()).is_retriable());
    assert!(CaptureError::OutputNotFound("DP-1".into()).message().contains("DP-1"));
}

// --- Command line choices ---

#[test]
fn compress_choices_map_to_compressors() {
    assert_eq!(CompressArg::Raw.to_kind(), CompressorKind::Raw);
    assert_eq!(CompressArg::Lz4.to_kind(), CompressorKind::Lz4);
    assert_eq!(CompressArg::Zstd.to_kind(), CompressorKind::Zstd);
}

// --- Frame payload ---

/// A frame whose regions were compressed to blobs of these sizes.
fn compressed_to(sizes: &[usize]) -> CompressedFrame {
    let total: usize = sizes.iter().sum();
    let mut offsets = Vec::new();
    let mut at = 0;
    for s in sizes {
        offsets.push(at);
        at += s;
    }
    CompressedFrame {
        data: (0..total).map(|i| (i * 7 + 3) as u8).collect(),
        region_offsets: offsets,
        region_sizes: sizes.to_vec(),
        stats: Default::default(),
    }
}

#[test]
fn serialize_round_trip_single_region() {
    let w = 16u32;
    let h = 16u32;
    let stride = w * 4;
    let regions = vec![DamageRect::new(0, 0, w, h)];

    let compressed = compressed_to(&[300]);
    let payload = serialize_frame_payload(w, h, stride, &regions, &compressed);

    let meta = FrameMeta::read_from_bytes(&payload[..FrameMeta::SIZE]).unwrap();
    assert_eq!({ meta.width }, w);
    assert_eq!({ meta.height }, h);
    assert_eq!({ meta.stride }, stride);
    assert_eq!({ meta.num_regions }, 1);

    let wr_off = FrameMeta::SIZE;
    let wr = WireRegion::read_from_bytes(&payload[wr_off..wr_off + WireRegion::SIZE]).unwrap();
    assert_eq!({ wr.x }, 0);
    assert_eq!({ wr.w }, w);
    assert_eq!({ wr.compressed_size }, compressed.region_sizes[0] as u32);

    let data_off = wr_off + WireRegion::SIZE;
    assert_eq!(&payload[data_off..], &compressed.data[..]);
}

#[test]
fn serialize_round_trip_multi_region() {
    let w = 32u32;
    let h = 32u32;
    let stride = w * 4;
    let regions = vec![
        DamageRect::new(0, 0, 16, 16),
        DamageRect::new(16, 16, 16, 16),
    ];

    let compressed = compressed_to(&[120, 77]);
    let payload = serialize_frame_payload(w, h, stride, &regions, &compressed);

    let meta = FrameMeta::read_from_bytes(&payload[..FrameMeta::SIZE]).unwrap();
    assert_eq!({ meta.num_regions }, 2);

    let mut off = FrameMeta::SIZE;
    for (i, rect) in regions.iter().enumerate() {
        let wr = WireRegion::read_from_bytes(&payload[off..off + WireRegion::SIZE]).unwrap();
        assert_eq!({ wr.x }, rect.x);
        assert_eq!({ wr.y }, rect.y);
        assert_eq!({ wr.w }, rect.width);
        assert_eq!({ wr.h }, rect.height);
        assert_eq!({ wr.compressed_size }, compressed.region_sizes[i] as u32);
        off += WireRegion::SIZE;
    }

    assert_eq!(&payload[off..], &compressed.data[..]);
}

#[test]
fn serialize_empty_regions() {
    let compressed = CompressedFrame {
        data: vec![],
        region_offsets: vec![],
        region_sizes: vec![],
        stats: Default::default(),
    };
    let payload = serialize_frame_payload(1920, 1080, 7680, &[], &compressed);
    assert_eq!(payload.len(), FrameMeta::SIZE);
    let meta = FrameMeta::read_from_bytes(&payload[..FrameMeta::SIZE]).unwrap();
    assert_eq!({ meta.num_regions }, 0);
    assert_eq!({ meta.width }, 1920);
}

#[test]
fn build_handshake_auto_lz4() {
    let data = build_handshake(&CaptureBackendArg::Auto, &CompressArg::Lz4);
    assert_eq!(data.len(), 24); // FrameHeader(16) + HandshakePayload(8)

    let hdr = FrameHeader::read_from_bytes(&data[..16]).unwrap();
    assert_eq!(hdr.msg_type().unwrap(), MsgType::Handshake);
    assert_eq!({ hdr.flags }, flags::LAST_CHUNK);
    assert_eq!({ hdr.payload_len }, 8);
}

#[test]
fn build_handshake_zstd() {
    let data = build_handshake(&CaptureBackendArg::WlrScreencopy, &CompressArg::Zstd);
    assert_eq!(data.len(), 24);

    let hs = HandshakePayload::read_from_bytes(&data[16..24]).unwrap();
    assert_eq!({ hs.capture_flags }, capture_flags::WLR_SCREENCOPY);
    assert_ne!({ hs.compress_flags } & compress_flags::ZSTD, 0);
}

#[test]
fn build_handshake_ext_image_capture() {
    let data = build_handshake(&CaptureBackendArg::ExtImageCapture, &CompressArg::Lz4);
    let hs = HandshakePayload::read_from_bytes(&data[16..24]).unwrap();
    assert_eq!({ hs.capture_flags }, capture_flags::EXT_IMAGE_CAPTURE);
}

#[test]
fn build_handshake_announces_all_backends_and_no_compression() {
    let data = build_handshake(&CaptureBackendArg::Auto, &CompressArg::Raw);
    let hs = HandshakePayload::read_from_bytes(&data[16..24]).unwrap();
    assert_eq!(
        hs.capture_flags,
        capture_flags::WLR_SCREENCOPY | capture_flags::EXT_IMAGE_CAPTURE | capture_flags::PORTAL
    );
    assert_eq!(hs.compress_flags, compress_flags::NONE);
}

#[test]
fn serialize_large_frame_4k() {
    let w = 3840u32;
    let h = 2160u32;
    let stride = w * 4;
    let regions = vec![DamageRect::new(0, 0, w, h)];

    let compressed = compressed_to(&[w as usize * h as usize * 4 / 3]);
    let payload = serialize_frame_payload(w, h, stride, &regions, &compressed);

    assert!(payload.len() > FrameMeta::SIZE + WireRegion::SIZE);
    let meta = FrameMeta::read_from_bytes(&payload[..FrameMeta::SIZE]).unwrap();
    assert_eq!({ meta.width }, 3840);
    assert_eq!({ meta.height }, 2160);
}

// --- Downscaling ---

#[test]
fn downscale_box_halves_resolution_averages_2x2() {
    // 4x4 source: each row/col has a distinct value so the 2x2 average
    // for each destination pixel is a known integer.
    //
    //  row0: 10 30 50 70
    //  row1: 20 40 60 80
    //  row2: 90 110 130 150
    //  row3: 100 120 140 160
    //
    // Top-left dst = avg(10,30,20,40) = 25. Top-right dst = avg(50,70,60,80) = 65.
    // Bottom-left = avg(90,110,100,120) = 105. Bottom-right = avg(130,150,140,160) = 145.
    let pattern: [u8; 16] = [
        10, 30, 50, 70, 20, 40, 60, 80, 90, 110, 130, 150, 100, 120, 140, 160,
    ];
    let (sw, sh) = (4u32, 4u32);
    let stride = sw * 4;
    let mut src = vec![0u8; (stride * sh) as usize];
    for y in 0..sh as usize {
        for x in 0..sw as usize {
            let off = y * stride as usize + x * 4;
            let v = pattern[y * 4 + x];
            src[off] = v;
            src[off + 1] = v;
            src[off + 2] = v;
            src[off + 3] = 255;
        }
    }

    let mut dst = Vec::new();
    let dst_stride = downscale_box(&src, sw, sh, stride, 2, 2, &mut dst);

    assert_eq!(dst_stride, 8);
    assert_eq!(dst.len(), 16);
    // R channel of each dst pixel == averaged greyscale value.
    assert_eq!(dst[0], 25); // top-left
    assert_eq!(dst[4], 65); // top-right
    assert_eq!(dst[8], 105); // bottom-left
    assert_eq!(dst[12], 145); // bottom-right
    // Alpha preserved at 255.
    assert_eq!(dst[3], 255);
    assert_eq!(dst[15], 255);
}

#[test]
fn downscale_box_preserves_solid_color() {
    // A uniform color must come out identical — averaging Ns of the same
    // value is that value. This guards the integer-divide rounding path.
    let (sw, sh) = (8u32, 6u32);
    let stride = sw * 4;
    let src = vec![137u8; (stride * sh) as usize];
    let mut dst = Vec::new();
    downscale_box(&src, sw, sh, stride, 4, 3, &mut dst);
    assert!(dst.iter().all(|&b| b == 137));
}

#[test]
fn downscale_nearest_halves_resolution() {
    let (sw, sh) = (4u32, 4u32);
    let stride = sw * 4;
    // Fill a 4x4 RGBA image with known pixel values.
    let mut src = vec![0u8; (stride * sh) as usize];
    for y in 0..sh {
        for x in 0..sw {
            let off = (y * stride + x * 4) as usize;
            src[off] = x as u8;
            src[off + 1] = y as u8;
            src[off + 2] = 0;
            src[off + 3] = 255;
        }
    }

    let (dw, dh) = (2u32, 2u32);
    let mut dst = Vec::new();
    let dst_stride = downscale_nearest(&src, sw, sh, stride, dw, dh, &mut dst);

    assert_eq!(dst_stride, dw * 4);
    assert_eq!(dst.len(), (dw * dh * 4) as usize);

    // Top-left pixel should be (0,0,...).
    assert_eq!(dst[0], 0);
    assert_eq!(dst[1], 0);
}

#[test]
fn downscale_nearest_same_size_is_copy() {
    let (w, h) = (2u32, 2u32);
    let stride = w * 4;
    let src: Vec<u8> = (0..(w * h * 4) as u8).collect();

    let mut dst = Vec::new();
    let dst_stride = downscale_nearest(&src, w, h, stride, w, h, &mut dst);

    assert_eq!(dst_stride, stride);
    assert_eq!(dst, src);
}

#[test]
fn downscale_nearest_upscale_not_applied() {
    // When target > source, the frame loop skips downscale,
    // but the function itself should still work (nearest neighbor stretch).
    let (sw, sh) = (2u32, 2u32);
    let stride = sw * 4;
    let src = vec![128u8; (stride * sh) as usize];

    let (dw, dh) = (4u32, 4u32);
    let mut dst = Vec::new();
    let dst_stride = downscale_nearest(&src, sw, sh, stride, dw, dh, &mut dst);

    assert_eq!(dst_stride, dw * 4);
    assert_eq!(dst.len(), (dw * dh * 4) as usize);
    // All pixels should be 128 since source is uniform.
    assert!(dst.iter().all(|&b| b == 128));
}

#[test]
fn a_box_average_is_bounded_by_its_block() {
    // Two blocks of two pixels, far apart in value.
    let src = [10u8, 0, 0, 0, 12, 0, 0, 0, 200, 0, 0, 0, 250, 0, 0, 0];
    let mut dst = Vec::new();
    downscale_box(&src, 4, 1, 16, 2, 1, &mut dst);
    assert_eq!((dst[0], dst[4]), (11, 225));
}

#[test]
fn downscale_box_same_size_is_copy() {
    let mut dst = Vec::new();
    assert_eq!(downscale_box(&[10, 20, 30, 40], 1, 1, 4, 1, 1, &mut dst), 4);
    assert_eq!(dst, vec![10, 20, 30, 40]);
    let src: Vec<u8> = (0..3 * 2 * 4).collect();
    assert_eq!(downscale_box(&src, 3, 2, 12, 3, 2, &mut dst), 12);
    assert_eq!(dst, src);
}

#[test]
fn downscale_box_enlarges_by_repeating() {
    let src = [1u8, 2, 3, 4, 5, 6, 7, 8];
    let mut dst = Vec::new();
    // Two pixels in a row become four pixels in each of two rows.
    assert_eq!(downscale_box(&src, 2, 1, 8, 4, 2, &mut dst), 16);
    let row = [1u8, 2, 3, 4, 1, 2, 3, 4, 5, 6, 7, 8, 5, 6, 7, 8];
    assert_eq!(dst, [row, row].concat());
    // Wider and lower at once: the rows are averaged.
    let src = [10u8, 10, 10, 10, 20, 20, 20, 21];
    assert_eq!(downscale_box(&src, 1, 2, 4, 2, 1, &mut dst), 8);
    assert_eq!(dst, vec![15, 15, 15, 15, 15, 15, 15, 15]);
}

#[test]
fn downscale_box_without_pixels() {
    let mut dst = vec![1, 2, 3];
    assert_eq!(downscale_box(&[], 0, 0, 0, 2, 1, &mut dst), 8);
    assert_eq!(dst, vec![0; 8]);
    assert_eq!(downscale_box(&[], 4, 4, 16, 0, 4, &mut dst), 0);
    assert!(dst.is_empty());
}

#[test]
fn downscale_box_by_rows_is_the_whole() {
    let (sw, sh) = (5u32, 7u32);
    let stride = 24u32;
    let src: Vec<u8> = (0..stride * sh).map(|i| (i * 31 % 251) as u8).collect();
    let mut whole = Vec::new();
    downscale_box(&src, sw, sh, stride, 3, 2, &mut whole);
    let mut rows = Vec::new();
    for dy in 0..2 {
        let s = Scaling {
            src_w: sw,
            src_h: sh,
            src_stride: stride,
            dst_w: 3,
            dst_h: 2,
        };
        append_box_row(&src, s, dy, &mut rows);
    }
    assert_eq!(whole, rows);
}

#[test]
fn scaling_a_frame_uses_the_chosen_filter() {
    let s = Scaling {
        src_w: 2,
        src_h: 1,
        src_stride: 8,
        dst_w: 1,
        dst_h: 1,
    };
    let src = [10u8, 20, 30, 40, 50, 60, 70, 80];
    let mut out = Vec::new();
    assert_eq!(scale_frame(&src, s, DownscaleFilterArg::Box, &mut out), 4);
    assert_eq!(out, vec![30, 40, 50, 60]);
    assert_eq!(scale_frame(&src, s, DownscaleFilterArg::Nearest, &mut out), 4);
    assert_eq!(out, vec![10, 20, 30, 40]);
}

// --- Damage ---

#[test]
fn stripes_cover_the_frame_and_the_last_takes_the_rest() {
    let stripes = stripe_full_frame(100, 10, 4);
    let tops: Vec<(u32, u32)> = stripes.iter().map(|r| (r.y, r.height)).collect();
    assert_eq!(tops, vec![(0, 2), (2, 2), (4, 2), (6, 4)]);
    assert!(stripes.iter().all(|r| r.x == 0 && r.width == 100));
}

#[test]
fn a_low_frame_is_one_stripe() {
    let stripes = stripe_full_frame(100, 3, 4);
    assert_eq!(stripes.len(), 1);
    assert_eq!(stripes[0].height, 3);
    assert_eq!(stripe_full_frame(100, 3, 0).len(), 1);
}

// --- Frame loop ---

fn unscaled(width: u32, height: u32) -> FrameSize {
    FrameSize {
        width,
        height,
        scaled: false,
    }
}

fn scaled_to(width: u32, height: u32) -> FrameSize {
    FrameSize {
        width,
        height,
        scaled: true,
    }
}

#[test]
fn the_newest_frame_is_taken() {
    assert_eq!(next_step(1, false), LoopStep::Take { skipped: 0 });
    assert_eq!(next_step(4, false), LoopStep::Take { skipped: 3 });
    // The last frames of a capture that has ended are still handled.
    assert_eq!(next_step(2, true), LoopStep::Take { skipped: 1 });
    assert_eq!(next_step(0, true), LoopStep::End);
    assert_eq!(next_step(0, false), LoopStep::Wait { millis: 2 });
    assert_eq!(POLL_INTERVAL_MS, 2);
}

#[test]
fn without_a_request_frames_follow_the_server() {
    let lp = FrameLoop::new(false);
    assert_eq!(lp.frame_size(1920, 1080, 960, 540), unscaled(1920, 1080));
    let lp = FrameLoop::new(true);
    assert_eq!(lp.frame_size(1920, 1080, 960, 540), scaled_to(960, 540));
    assert_eq!(lp.frame_size(1, 1, 1, 1), scaled_to(1, 1));
}

#[test]
fn a_requested_size_holds_until_it_is_reset() {
    for downscaling in [false, true] {
        let mut lp = FrameLoop::new(downscaling);
        lp.request_size(TargetResolutionPayload::new(1280, 720));
        assert_eq!(lp.frame_size(1920, 1080, 960, 540), scaled_to(1280, 720));
        lp.plan(scaled_to(1280, 720), 16, &vec![], 1);
        lp.finish(true, scaled_to(1280, 720), vec![0; 16]);
        assert_eq!(lp.frame_size(1920, 1080, 960, 540), scaled_to(1280, 720));
        assert_eq!(lp.frame_size(1280, 720, 960, 540), unscaled(1280, 720));
        lp.request_size(TargetResolutionPayload::new(0, 0));
        assert_eq!(lp.frame_size(1920, 1080, 960, 540), unscaled(1920, 1080));
    }
}

#[test]
fn a_request_never_enlarges_a_frame() {
    let mut lp = FrameLoop::new(false);
    lp.request_size(TargetResolutionPayload::new(3840, 2160));
    assert_eq!(lp.frame_size(1920, 1080, 1920, 1080), unscaled(1920, 1080));
    lp.request_size(TargetResolutionPayload::new(3840, 540));
    assert_eq!(lp.frame_size(1920, 1080, 1920, 1080), scaled_to(1920, 540));
    lp.request_size(TargetResolutionPayload::new(960, 0));
    assert_eq!(lp.frame_size(1920, 1080, 1920, 1080), scaled_to(960, 1080));
}

#[test]
fn a_new_size_starts_with_an_anchor() {
    let mut lp = FrameLoop::new(false);
    let damage = vec![DamageRect::new(0, 0, 1, 1)];
    lp.plan(unscaled(4, 4), 64, &damage, 1);
    lp.finish(true, unscaled(4, 4), vec![7; 64]);
    lp.request_size(TargetResolutionPayload::new(2, 2));
    let size = lp.frame_size(4, 4, 4, 4);
    let plan = lp.plan(size, 16, &damage, 1);
    assert!(plan.anchor);
    assert_eq!(plan.msg_type, MsgType::AnchorFrame);
    assert_eq!((plan.regions[0].width, plan.regions[0].height), (2, 2));
    // The delta base has the length of the frame.
    assert_eq!(lp.previous_frame(), &[7u8; 16][..]);
    // Until one was sent.
    lp.finish(false, size, vec![1; 16]);
    assert!(lp.plan(size, 16, &damage, 1).anchor);
    lp.finish(true, size, vec![1; 16]);
    let plan = lp.plan(size, 16, &damage, 1);
    assert!(!plan.anchor);
    // Scaled frames are whole.
    assert_eq!((plan.regions[0].width, plan.regions[0].height), (2, 2));
    lp.finish(true, size, vec![2; 16]);
    // Without a request there is no anchor, whatever the size is.
    assert!(!lp.plan(unscaled(3, 3), 36, &damage, 1).anchor);
}

#[test]
fn a_request_that_changes_nothing_makes_no_anchor() {
    let damage = vec![DamageRect::new(0, 0, 1, 1)];
    // Native resolution, the native size, more than that; and the same once more.
    for (w, h) in [(0, 0), (4, 4), (8, 8), (4, 0)] {
        for sent in [true, false] {
            let mut lp = FrameLoop::new(false);
            lp.plan(unscaled(4, 4), 64, &damage, 1);
            lp.finish(sent, unscaled(4, 4), vec![7; 64]);
            for _ in 0..2 {
                lp.request_size(TargetResolutionPayload::new(w, h));
                let size = lp.frame_size(4, 4, 4, 4);
                assert_eq!(size, unscaled(4, 4));
                let plan = lp.plan(size, 64, &damage, 1);
                assert!(!plan.anchor);
                assert_eq!(plan.msg_type, MsgType::FrameUpdate);
                lp.finish(sent, size, vec![7; 64]);
            }
        }
    }
    // A request before the first frame is no different.
    let mut lp = FrameLoop::new(false);
    lp.request_size(TargetResolutionPayload::new(2, 2));
    let size = lp.frame_size(4, 4, 4, 4);
    assert!(lp.plan(size, 16, &damage, 1).anchor);
    lp.finish(false, size, vec![7; 16]);
    assert!(!lp.plan(size, 16, &damage, 1).anchor);
}

#[test]
fn between_anchors_the_delta_base_is_the_last_frame_of_any_length() {
    let mut lp = FrameLoop::new(false);
    lp.plan(unscaled(4, 4), 64, &vec![], 1);
    lp.finish(true, unscaled(4, 4), vec![1; 64]);
    lp.plan(unscaled(2, 4), 32, &vec![], 1);
    lp.finish(true, unscaled(2, 4), vec![2; 32]);
    lp.plan(unscaled(4, 4), 64, &vec![], 1);
    assert_eq!(lp.previous_frame(), &[2u8; 32][..]);
}

#[test]
fn the_first_frame_is_an_anchor_of_the_whole_frame() {
    let mut lp = FrameLoop::new(false);
    let damage = vec![DamageRect::new(1, 2, 3, 4)];
    let plan = lp.plan(unscaled(64, 48), 64 * 48 * 4, &damage, 1);
    assert!(plan.anchor);
    assert_eq!(plan.msg_type, MsgType::AnchorFrame);
    assert_eq!(plan.regions.len(), 1);
    assert_eq!(plan.regions[0].width, 64);
    assert_eq!(plan.regions[0].height, 48);
    assert_eq!(lp.previous_frame(), &vec![0u8; 64 * 48 * 4][..]);
    lp.finish(true, unscaled(64, 48), vec![5u8; 64 * 48 * 4]);
    let plan = lp.plan(unscaled(64, 48), 64 * 48 * 4, &damage, 1);
    assert!(!plan.anchor);
    assert_eq!(plan.msg_type, MsgType::FrameUpdate);
    assert_eq!(plan.regions.len(), 1);
    assert_eq!(plan.regions[0].x, 1);
    assert_eq!(lp.previous_frame(), &vec![5u8; 64 * 48 * 4][..]);
}

#[test]
fn a_frame_that_was_not_sent_is_no_delta_base() {
    let mut lp = FrameLoop::new(false);
    let damage = vec![DamageRect::new(0, 0, 1, 1)];
    lp.plan(unscaled(4, 4), 64, &damage, 1);
    lp.finish(true, unscaled(4, 4), vec![1u8; 64]);
    lp.plan(unscaled(4, 4), 64, &damage, 1);
    lp.finish(false, unscaled(4, 4), vec![2u8; 64]);
    assert_eq!(lp.previous_frame(), &[1u8; 64][..]);
    // The damage of the lost frame is made up for.
    let plan = lp.plan(unscaled(4, 4), 64, &damage, 1);
    assert_eq!(plan.regions[0].width, 4);
    lp.finish(true, unscaled(4, 4), vec![3u8; 64]);
    let plan = lp.plan(unscaled(4, 4), 64, &damage, 1);
    assert_eq!(plan.regions[0].width, 1);
}

#[test]
fn skipped_and_dropped_captures_force_full_damage() {
    for (skipped, dropped) in [(1, false), (0, true)] {
        let mut lp = FrameLoop::new(false);
        let damage = vec![DamageRect::new(0, 0, 1, 1)];
        lp.plan(unscaled(4, 4), 64, &damage, 1);
        lp.finish(true, unscaled(4, 4), vec![1u8; 64]);
        lp.note_capture(skipped, dropped);
        let plan = lp.plan(unscaled(4, 4), 64, &damage, 1);
        assert_eq!(plan.regions[0].width, 4);
    }
}

#[test]
fn anchors_come_at_a_fixed_interval() {
    let mut lp = FrameLoop::new(true);
    let mut anchors = Vec::new();
    for i in 0..=2 * ANCHOR_INTERVAL {
        let size = lp.frame_size(4, 4, 2, 2);
        let plan = lp.plan(size, 16, &vec![DamageRect::new(0, 0, 1, 1)], 1);
        // A downscaled frame is always whole.
        assert_eq!(plan.regions[0].width, 2);
        if plan.anchor {
            anchors.push(i);
        }
        lp.finish(true, size, vec![0u8; 16]);
    }
    assert_eq!(anchors, vec![0, 300, 600]);
    assert_eq!(lp.frame_count(), 601);
}

#[test]
fn a_packaged_frame_arrives_as_one_message() {
    let mut lp = FrameLoop::new(false);
    let plan = lp.plan(unscaled(1920, 1080), 16, &vec![], 2);
    assert_eq!(plan.regions.len(), 2);
    let compressed = compressed_to(&[CHUNK_SIZE, 100]);
    let wire = package(&plan, 1920, 1080, 7680, &compressed, 123);
    let mut p = StreamParser::new();
    let msgs = p.push(&wire).unwrap();
    assert_eq!(msgs.len(), 1);
    assert_eq!(msgs[0].header.stream_id, PRIMARY_STREAM);
    assert_eq!(msgs[0].header.timestamp_ns, 123);
    assert_eq!(msgs[0].header.msg_type().unwrap(), MsgType::AnchorFrame);
    assert_ne!(msgs[0].header.flags & flags::COMPRESSED, 0);
    assert_eq!(
        msgs[0].payload_slice(),
        &serialize_frame_payload(1920, 1080, 7680, &plan.regions, &compressed)[..]
    );
}

// --- Dispatch ---

fn dispatched(msg_type: u8, payload: &[u8]) -> Dispatch {
    let mut hdr = FrameHeader::new(
        0,
        MsgType::Ack,
        flags::LAST_CHUNK,
        payload.len() as u32,
        0,
    );
    hdr.msg_type = msg_type;
    let mut data = Vec::new();
    encode_frame(&hdr, payload, &mut data);
    let mut msgs = StreamParser::new().push(&data).unwrap();
    dispatch(&msgs.remove(0))
}

#[test]
fn input_events_are_injected() {
    let event = InputEvent::key(KeyEvent { key: 30, state: 1 });
    match dispatched(MsgType::InputEvent.code(), &event.as_bytes()) {
        Dispatch::Inject(e) => {
            assert_eq!(e.kind().unwrap(), InputKind::Key);
            assert_eq!(e.as_bytes(), event.as_bytes());
        }
        _ => panic!("an input event is injected"),
    }
}

#[test]
fn a_requested_size_is_dispatched() {
    let request = TargetResolutionPayload::new(1280, 720);
    let mut payload = request.as_bytes();
    for _ in 0..2 {
        match dispatched(MsgType::TargetResolution.code(), &payload) {
            Dispatch::Resize(r) => assert_eq!((r.width, r.height), (1280, 720)),
            _ => panic!("a size is asked for"),
        }
        // What follows the size is of no account.
        payload.push(0xff);
    }
    assert!(matches!(
        dispatched(MsgType::TargetResolution.code(), &[0; 7]),
        Dispatch::TooShort
    ));
}

#[test]
fn other_messages_are_passed_over() {
    assert!(matches!(
        dispatched(MsgType::InputEvent.code(), &[0; 15]),
        Dispatch::TooShort
    ));
    assert!(matches!(
        dispatched(MsgType::Handshake.code(), &[]),
        Dispatch::ClientHandshake
    ));
    assert!(matches!(
        dispatched(MsgType::Resize.code(), &[]),
        Dispatch::Ignore(MsgType::Resize)
    ));
}

// --- Session ---

#[test]
fn a_session_without_a_command_captures_as_asked() {
    let mut s = Session::new(None, &[]);
    let handshake = MsgType::Handshake.code();
    assert_eq!(
        s.advance(SessionEvent::Received(Some(handshake))),
        SessionAction::EnsureDisplay
    );
    assert_eq!(s.advance(SessionEvent::Display(true)), SessionAction::OpenAsAsked);
    assert_eq!(s.advance(SessionEvent::Opened(true)), SessionAction::SpawnThreads);
    assert_eq!(s.advance(SessionEvent::Spawned(true)), SessionAction::Stream);
    assert_eq!(
        s.advance(SessionEvent::Ended(EndReason::TransportClosed)),
        SessionAction::StopThreads
    );
    assert!(!s.is_over());
    assert_eq!(s.advance(SessionEvent::Joined), SessionAction::Exit);
    assert!(s.is_over());
}

#[test]
fn a_session_with_a_command_finds_its_window_or_falls_back() {
    let mut s = Session::new(None, &["firefox".to_string()]);
    s.advance(SessionEvent::Received(Some(MsgType::Handshake.code())));
    assert_eq!(
        s.advance(SessionEvent::Display(true)),
        SessionAction::EnumerateToplevels
    );
    assert_eq!(s.advance(SessionEvent::Toplevels(true)), SessionAction::LaunchChild);
    assert_eq!(s.advance(SessionEvent::Launched(true)), SessionAction::OpenChildWindow);
    assert_eq!(s.advance(SessionEvent::Opened(false)), SessionAction::OpenFullOutput);
    assert_eq!(s.advance(SessionEvent::Opened(true)), SessionAction::SpawnThreads);
    s.advance(SessionEvent::Spawned(true));
    s.advance(SessionEvent::Ended(EndReason::ChildExited));
    assert_eq!(s.advance(SessionEvent::Joined), SessionAction::KillChild);
    assert_eq!(s.advance(SessionEvent::Killed), SessionAction::Exit);
}

#[test]
fn a_session_with_a_command_and_an_app_id_waits_for_that_window() {
    let mut s = Session::new(Some("app"), &["firefox".to_string()]);
    s.advance(SessionEvent::Received(Some(MsgType::Handshake.code())));
    assert_eq!(s.advance(SessionEvent::Display(true)), SessionAction::LaunchChild);
    assert_eq!(s.advance(SessionEvent::Launched(true)), SessionAction::OpenAppWindow);
    assert_eq!(s.advance(SessionEvent::Opened(false)), SessionAction::FailAsReported);
    assert!(s.is_over());
}

#[test]
fn a_session_needs_a_handshake_and_a_display() {
    let mut s = Session::new(None, &[]);
    let action = s.advance(SessionEvent::Received(Some(MsgType::Ack.code())));
    assert_eq!(action, SessionAction::Fail(SessionError::NotHandshake(5)));
    assert_eq!(
        SessionError::NotHandshake(5).message(),
        "expected handshake, got msg_type=5"
    );
    let mut s = Session::new(None, &[]);
    assert_eq!(
        s.advance(SessionEvent::Received(None)),
        SessionAction::Fail(SessionError::ClosedBeforeHandshake)
    );
    let mut s = Session::new(None, &[]);
    s.advance(SessionEvent::Received(Some(MsgType::Handshake.code())));
    assert_eq!(
        s.advance(SessionEvent::Display(false)),
        SessionAction::Fail(SessionError::NoCompositor)
    );
    assert_eq!(
        SessionError::ClosedBeforeHandshake.message(),
        "transport closed before handshake"
    );
    assert!(SessionError::NoCompositor.message().contains("WAYLAND_DISPLAY"));
}
