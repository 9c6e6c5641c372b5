use remoteway::interpolate::backend::{BackendSetup, Features};
use remoteway::interpolate::backends::common::{CacheAction, Upload};
use remoteway::interpolate::backends::ffx_fg::{
    check_call, FfxCall, FfxDimensions2D, FfxEffectMemoryUsage,
    FfxFrameInterpolationSharedResourceDescriptions, FfxInterface, FfxRect2D,
    FfxResourceDescription, FFX_INTERFACE_SIZE, FFX_OK,
};
use remoteway::interpolate::backends::fsr2::Fsr2Interpolator;
use remoteway::interpolate::backends::fsr2_native::Fsr2NativeInterpolator;
use remoteway::interpolate::backends::fsr2_rife::Fsr2RifeInterpolator;
use remoteway::interpolate::backends::fsr3::{Fsr3Interpolator, UpscaleRoute};
use remoteway::interpolate::backends::fsr3_frame_gen::{
    narrow, resource_failure, upload_buffer, upload_program, widen, Fsr3FrameGen, INPUT_COLOR,
    INPUT_DEPTH, INPUT_MV, OUTPUT_COLOR, STAGING,
};
use remoteway::interpolate::backends::nvidia_optical_flow::{
    session_description, NvidiaOpticalFlowInterpolator, SessionPoint,
};
use remoteway::interpolate::backends::rife::{
    default_model_paths, ModelCandidate, ModelProbe, RifeInterpolator,
};
use remoteway::interpolate::backends::wgpu_optical_flow::{
    buffer_sizes, device_failed, Grid, Params, WgpuOpticalFlowInterpolator,
};
use remoteway::interpolate::backends::{
    fsr2, fsr2_native, nvidia_optical_flow, wgpu_optical_flow,
};
use remoteway::interpolate::bicubic::{cpu_bicubic_upscale, gather, tap_positions};
use remoteway::interpolate::{
    BackendDetector, BackendKind, FrameInterpolator, GpuFrame, InterpolateError,
    InterpolationManager, LinearBlendInterpolator,
};
use remoteway::vulkan::memory::MemoryKind;
use remoteway::vulkan::program::{
    Access, FlowConvertPc, Format, Layout, PassConstants, PushConstants, SdkWork, Stage, Step,
};

const NO_FEATURES: Features = Features {
    fsr2: false,
    fsr3: false,
    fsr2_rife: false,
    vulkan: false,
};

const ALL_FEATURES: Features = Features {
    fsr2: true,
    fsr3: true,
    fsr2_rife: true,
    vulkan: true,
};

/// Buffers and bytes of a list of uploads.
fn uploaded<'a>(uploads: &'a [Upload<'a>]) -> Vec<(usize, &'a [u8])> {
    uploads.iter().map(|u| (u.buffer, u.bytes())).collect()
}

fn bits(t: f32) -> u32 {
    t.to_bits()
}

/// The error's text, with its factor as a decimal number.
fn display(e: &InterpolateError) -> String {
    let factor = match e {
        InterpolateError::InvalidFactor(t) => f32::from_bits(*t).to_string(),
        _ => String::new(),
    };
    e.message(&factor)
}

fn make_frame(width: u32, height: u32, value: u8, ts: u64) -> GpuFrame {
    let stride = width * 4;
    GpuFrame::from_data(
        vec![value; (stride * height) as usize],
        width,
        height,
        stride,
        ts,
    )
}

fn assert_send_sync<T: Send + Sync>() {}

// --- Backend kinds ---

#[test]
fn backend_kind_name() {
    assert_eq!(BackendKind::LinearBlend.name(), "linear-blend");
    assert_eq!(BackendKind::Fsr2.name(), "fsr2");
    assert_eq!(BackendKind::Fsr3.name(), "fsr3");
    assert_eq!(BackendKind::Fsr2Rife.name(), "fsr2-rife");
}

#[test]
fn backend_kind_eq() {
    assert_eq!(BackendKind::LinearBlend, BackendKind::LinearBlend);
    assert_ne!(BackendKind::LinearBlend, BackendKind::Fsr2);
}

#[test]
fn detect_available_always_includes_linear_blend() {
    for features in [NO_FEATURES, ALL_FEATURES] {
        let available = BackendDetector::detect_available(&features);
        assert!(!available.is_empty());
        assert_eq!(*available.last().unwrap(), BackendKind::LinearBlend);
    }
}

#[test]
fn select_best_succeeds() {
    let interp = BackendDetector::select_best(&NO_FEATURES).unwrap();
    assert_eq!(interp.name(), "linear-blend");
    let interp = BackendDetector::select_best(&ALL_FEATURES).unwrap();
    assert!(!interp.name().is_empty());
}

#[test]
fn create_linear_blend() {
    let interp = BackendDetector::create_backend(BackendKind::LinearBlend, &NO_FEATURES).unwrap();
    assert_eq!(interp.name(), "linear-blend");
}

#[test]
fn create_disabled_feature_backends() {
    // Without features enabled, GPU backends return feature-not-enabled errors.
    assert!(BackendDetector::create_backend(BackendKind::Fsr2, &NO_FEATURES).is_err());
    assert!(BackendDetector::create_backend(BackendKind::Fsr3, &NO_FEATURES).is_err());
    assert!(BackendDetector::create_backend(BackendKind::Fsr2Rife, &NO_FEATURES).is_err());
}

#[test]
fn backend_kind_clone_copy() {
    let a = BackendKind::Fsr2;
    let b = a;
    assert_eq!(a, b);
}

#[test]
fn backend_kind_debug() {
    let dbg = format!("{:?}", BackendKind::Fsr3);
    assert!(dbg.contains("Fsr3"));
}

#[test]
fn from_str_all_valid_names() {
    assert_eq!(
        "linear-blend".parse::<BackendKind>().unwrap(),
        BackendKind::LinearBlend
    );
    assert_eq!("fsr2".parse::<BackendKind>().unwrap(), BackendKind::Fsr2);
    assert_eq!("fsr3".parse::<BackendKind>().unwrap(), BackendKind::Fsr3);
    assert_eq!(
        "fsr2-rife".parse::<BackendKind>().unwrap(),
        BackendKind::Fsr2Rife
    );
}

#[test]
fn from_str_unknown_returns_error() {
    let err = "unknown-backend".parse::<BackendKind>().unwrap_err();
    assert!(err.contains("unknown backend"));
}

#[test]
fn backends_are_offered_by_quality() {
    assert_eq!(
        BackendDetector::detect_available(&ALL_FEATURES),
        vec![BackendKind::Fsr3, BackendKind::Fsr2, BackendKind::LinearBlend]
    );
    let no_device = Features {
        vulkan: false,
        ..ALL_FEATURES
    };
    assert_eq!(
        BackendDetector::detect_available(&no_device),
        vec![BackendKind::LinearBlend]
    );
}

#[test]
fn refusals_name_the_backend() {
    let err = BackendKind::parse("dlss").unwrap_err();
    assert_eq!(
        err,
        "unknown backend 'dlss'. Available: fsr3, fsr2, fsr2-rife, linear-blend"
    );
    match BackendDetector::create_backend(BackendKind::Fsr2Rife, &NO_FEATURES) {
        Err(e) => assert_eq!(
            display(&e),
            "backend initialization failed: fsr2-rife feature not enabled"
        ),
        Ok(_) => panic!("the backend was not built in"),
    }
}

#[test]
fn a_failed_fsr3_falls_back_to_fsr2() {
    assert_eq!(
        BackendDetector::create_backend(BackendKind::Fsr3, &ALL_FEATURES).unwrap(),
        BackendSetup::Fsr3 {
            render_w: 1280,
            render_h: 720,
            display_w: 1920,
            display_h: 1080
        }
    );
    let error = InterpolateError::InitFailed("no SDK".to_string());
    let next = BackendDetector::after_fsr3_failure(&ALL_FEATURES, error).unwrap();
    assert_eq!(next.kind(), BackendKind::Fsr2);
    let error = InterpolateError::InitFailed("no SDK".to_string());
    assert!(BackendDetector::after_fsr3_failure(&NO_FEATURES, error).is_err());
}

#[test]
fn backend_detector_always_has_fallback() {
    let available = BackendDetector::detect_available(&NO_FEATURES);
    assert!(available.contains(&BackendKind::LinearBlend));
    assert_eq!(*available.last().unwrap(), BackendKind::LinearBlend);
}

#[test]
fn backend_detector_select_best_works() {
    let setup = BackendDetector::select_best(&NO_FEATURES).unwrap();
    assert!(!setup.name().is_empty());
    assert_eq!(setup, BackendSetup::LinearBlend);

    // Verify it actually works.
    let mut interp = LinearBlendInterpolator;
    let a = make_frame(16, 16, 50, 0);
    let b = make_frame(16, 16, 150, 1000);
    let result = interp.interpolate(&a, &b, bits(0.5)).unwrap();
    assert_eq!(result.width, 16);
}

#[test]
fn backend_detector_create_linear_blend() {
    assert!(BackendDetector::create_backend(BackendKind::LinearBlend, &NO_FEATURES).is_ok());
}

#[test]
fn backend_detector_create_all_returns_result() {
    // Each backend returns either Ok (if available) or a non-empty error.
    for kind in [
        BackendKind::LinearBlend,
        BackendKind::Fsr2,
        BackendKind::Fsr3,
        BackendKind::Fsr2Rife,
    ] {
        for features in [NO_FEATURES, ALL_FEATURES] {
            match BackendDetector::create_backend(kind, &features) {
                Ok(interp) => assert!(!interp.name().is_empty(), "empty name for {kind:?}"),
                Err(e) => assert!(!display(&e).is_empty(), "empty error for {kind:?}"),
            }
        }
    }
}

// --- Errors ---

#[test]
fn error_display_all_variants() {
    let errors: Vec<InterpolateError> = vec![
        InterpolateError::NoBackend,
        InterpolateError::DeviceLost,
        InterpolateError::DimensionMismatch(1920, 1080, 3840, 2160),
        InterpolateError::InvalidFactor(bits(1.5)),
        InterpolateError::InitFailed("test".into()),
        InterpolateError::InterpolateFailed("test".into()),
    ];
    for e in &errors {
        let s = display(e);
        assert!(!s.is_empty());
    }
}

#[test]
fn error_debug() {
    let e = InterpolateError::DimensionMismatch(100, 200, 300, 400);
    let dbg = format!("{e:?}");
    assert!(dbg.contains("DimensionMismatch"));
}

#[test]
fn error_is_send_sync() {
    assert_send_sync::<InterpolateError>();
}

#[test]
fn interpolate_error_display() {
    let errors = vec![
        InterpolateError::NoBackend,
        InterpolateError::DeviceLost,
        InterpolateError::DimensionMismatch(1920, 1080, 3840, 2160),
        InterpolateError::InvalidFactor(bits(2.0)),
        InterpolateError::InitFailed("gpu init failed".into()),
        InterpolateError::InterpolateFailed("shader error".into()),
    ];
    for e in &errors {
        assert!(!display(e).is_empty());
    }
}

#[test]
fn interpolate_error_is_send_sync() {
    assert_send_sync::<InterpolateError>();
}

#[test]
fn wgpu_of_validates_t() {
    let err = InterpolateError::InvalidFactor(bits(1.5));
    assert!(display(&err).contains("1.5"));
}

#[test]
fn error_messages_are_exact() {
    assert_eq!(
        display(&InterpolateError::DimensionMismatch(1920, 1080, 3840, 2160)),
        "frame dimensions mismatch: 1920x1080 vs 3840x2160"
    );
    assert_eq!(
        display(&InterpolateError::InvalidFactor(bits(1.5))),
        "invalid interpolation factor: 1.5 (must be 0.0..=1.0)"
    );
    assert_eq!(
        display(&InterpolateError::InterpolateFailed("x".into())),
        "interpolation failed: x"
    );
}

// --- Frames ---

#[test]
fn gpu_frame_new() {
    let f = GpuFrame::new(1920, 1080, 1920 * 4, 0);
    assert_eq!(f.width, 1920);
    assert_eq!(f.height, 1080);
    assert_eq!(f.stride, 7680);
    assert_eq!(f.byte_size(), 1920 * 1080 * 4);
    assert_eq!(f.pixel_count(), 1920 * 1080);
}

#[test]
fn gpu_frame_from_data() {
    let data = vec![0xFF; 64 * 48 * 4];
    let f = GpuFrame::from_data(data, 64, 48, 256, 12345);
    assert_eq!(f.byte_size(), 64 * 48 * 4);
    assert_eq!(f.timestamp_ns, 12345);
}

#[test]
fn gpu_frame_same_dimensions() {
    let a = GpuFrame::new(100, 50, 400, 0);
    let b = GpuFrame::new(100, 50, 400, 1);
    let c = GpuFrame::new(200, 50, 800, 0);
    assert!(a.same_dimensions(&b));
    assert!(!a.same_dimensions(&c));
}

#[test]
fn gpu_frame_4k_allocation() {
    let f = GpuFrame::new(3840, 2160, 3840 * 4, 0);
    assert_eq!(f.byte_size(), 3840 * 2160 * 4);
    assert_eq!(f.pixel_count(), 3840 * 2160);
}

#[test]
fn gpu_frame_zero_size() {
    let f = GpuFrame::new(0, 0, 0, 0);
    assert_eq!(f.byte_size(), 0);
    assert_eq!(f.pixel_count(), 0);
}

#[test]
fn gpu_frame_same_dimensions_with_different_stride() {
    let a = GpuFrame::new(100, 50, 400, 0);
    let b = GpuFrame::new(100, 50, 512, 0); // padded stride
    assert!(!a.same_dimensions(&b));
}

// --- Linear blend ---

#[test]
fn linear_blend_at_zero() {
    let mut interp = LinearBlendInterpolator;
    let a = make_frame(2, 2, 100, 0);
    let b = make_frame(2, 2, 200, 1000);
    let result = interp.interpolate(&a, &b, bits(0.0)).unwrap();
    // At t=0, result should be very close to frame a.
    for &px in &result.data {
        assert!((99..=101).contains(&px), "px={px}");
    }
    assert_eq!(result.timestamp_ns, 0);
}

#[test]
fn linear_blend_at_one() {
    let mut interp = LinearBlendInterpolator;
    let a = make_frame(2, 2, 100, 0);
    let b = make_frame(2, 2, 200, 1000);
    let result = interp.interpolate(&a, &b, bits(1.0)).unwrap();
    for &px in &result.data {
        assert!((199..=201).contains(&px), "px={px}");
    }
    assert_eq!(result.timestamp_ns, 1000);
}

#[test]
fn linear_blend_at_half() {
    let mut interp = LinearBlendInterpolator;
    let a = make_frame(2, 2, 0, 0);
    let b = make_frame(2, 2, 200, 2000);
    let result = interp.interpolate(&a, &b, bits(0.5)).unwrap();
    for &px in &result.data {
        // 0 * 128/256 + 200 * 128/256 = 100
        assert!((98..=102).contains(&px), "px={px}");
    }
    assert_eq!(result.timestamp_ns, 1000);
}

#[test]
fn linear_blend_black_white() {
    let mut interp = LinearBlendInterpolator;
    let a = make_frame(4, 4, 0, 0);
    let b = make_frame(4, 4, 255, 16_666_667);
    let result = interp.interpolate(&a, &b, bits(0.25)).unwrap();
    // 0 * 192/256 + 255 * 64/256 = 63.75 ≈ 63 or 64
    for &px in &result.data {
        assert!((62..=65).contains(&px), "px={px}");
    }
}

#[test]
fn linear_blend_dimension_mismatch() {
    let mut interp = LinearBlendInterpolator;
    let a = make_frame(100, 100, 128, 0);
    let b = make_frame(200, 100, 128, 1000);
    let result = interp.interpolate(&a, &b, bits(0.5));
    assert!(matches!(
        result,
        Err(InterpolateError::DimensionMismatch(..))
    ));
}

#[test]
fn linear_blend_invalid_factor() {
    let mut interp = LinearBlendInterpolator;
    let a = make_frame(2, 2, 128, 0);
    let b = make_frame(2, 2, 128, 1000);

    assert!(matches!(
        interp.interpolate(&a, &b, bits(-0.1)),
        Err(InterpolateError::InvalidFactor(_))
    ));
    assert!(matches!(
        interp.interpolate(&a, &b, bits(1.1)),
        Err(InterpolateError::InvalidFactor(_))
    ));
}

#[test]
fn linear_blend_name_and_latency() {
    let interp = LinearBlendInterpolator;
    assert_eq!(interp.name(), "linear-blend");
    assert!(f32::from_bits(interp.latency_ms()) > 0.0);
}

#[test]
fn frame_interpolator_is_send_sync() {
    assert_send_sync::<LinearBlendInterpolator>();
}

#[test]
fn linear_blend_1080p() {
    let mut interp = LinearBlendInterpolator;
    let a = make_frame(1920, 1080, 128, 0);
    let b = make_frame(1920, 1080, 64, 16_666_667);
    let result = interp.interpolate(&a, &b, bits(0.5)).unwrap();
    assert_eq!(result.width, 1920);
    assert_eq!(result.height, 1080);
    assert_eq!(result.byte_size(), 1920 * 1080 * 4);
}

#[test]
fn linear_blend_full_pipeline() {
    let mut interp = LinearBlendInterpolator;
    let a = make_frame(320, 240, 0, 0);
    let b = make_frame(320, 240, 200, 16_666_667);

    // Generate 3 intermediate frames.
    for i in 1..=3 {
        let t = i as f32 / 4.0;
        let result = interp.interpolate(&a, &b, bits(t)).unwrap();
        assert_eq!(result.width, 320);
        assert_eq!(result.height, 240);
        assert_eq!(result.byte_size(), 320 * 240 * 4);
        assert!(result.timestamp_ns > 0);
        assert!(result.timestamp_ns < 16_666_667);
    }
}

#[test]
fn linear_blend_preserves_extremes() {
    let mut interp = LinearBlendInterpolator;
    let black = make_frame(8, 8, 0, 0);
    let white = make_frame(8, 8, 255, 1000);

    let at_0 = interp.interpolate(&black, &white, bits(0.0)).unwrap();
    let at_1 = interp.interpolate(&black, &white, bits(1.0)).unwrap();

    for &px in &at_0.data {
        assert!(px <= 1, "at t=0: px={px}");
    }
    for &px in &at_1.data {
        assert!(px >= 254, "at t=1: px={px}");
    }
}

#[test]
fn linear_blend_monotonic() {
    let mut interp = LinearBlendInterpolator;
    let a = make_frame(4, 4, 0, 0);
    let b = make_frame(4, 4, 200, 1000);

    let mut prev_avg = 0u64;
    for i in 0..=10 {
        let t = i as f32 / 10.0;
        let result = interp.interpolate(&a, &b, bits(t)).unwrap();
        let avg: u64 =
            result.data.iter().map(|&x| x as u64).sum::<u64>() / result.data.len() as u64;
        assert!(
            avg >= prev_avg,
            "non-monotonic at t={t}: {avg} < {prev_avg}"
        );
        prev_avg = avg;
    }
}

#[test]
fn linear_blend_timestamp_interpolation() {
    let mut interp = LinearBlendInterpolator;
    let a = make_frame(2, 2, 0, 1_000_000);
    let b = make_frame(2, 2, 0, 2_000_000);

    let mid = interp.interpolate(&a, &b, bits(0.5)).unwrap();
    assert!(mid.timestamp_ns >= 1_400_000 && mid.timestamp_ns <= 1_600_000);

    let quarter = interp.interpolate(&a, &b, bits(0.25)).unwrap();
    assert!(quarter.timestamp_ns >= 1_200_000 && quarter.timestamp_ns <= 1_300_000);
}

#[test]
fn linear_blend_agrees_with_floating_point() {
    let mut interp = LinearBlendInterpolator;
    for t in [
        0.0f32,
        1.0e-40,
        1.0e-10,
        0.001,
        0.0039,
        0.0040,
        0.1,
        0.2,
        0.3,
        0.5,
        0.6,
        0.75,
        0.9,
        0.99999994,
        1.0,
    ] {
        for (ta, tb) in [
            (0u64, 16_666_667u64),
            (5, 5),
            (10, 3),
            (1 << 40, (1 << 40) + 987_654_321),
            (7, (1u64 << 60) + 12345),
        ] {
            for (va, vb) in [(0u8, 255u8), (200, 10), (77, 77)] {
                let a = make_frame(1, 1, va, ta);
                let b = make_frame(1, 1, vb, tb);
                let f = interp.interpolate(&a, &b, bits(t)).unwrap();
                let t_fixed = (t * 256.0) as u16;
                let inv_t = 256 - t_fixed;
                let px = ((u16::from(va) * inv_t + u16::from(vb) * t_fixed) >> 8) as u8;
                assert_eq!(f.data, vec![px; 4]);
                let ts = if tb >= ta {
                    ta + ((tb - ta) as f64 * f64::from(t)) as u64
                } else {
                    ta
                };
                assert_eq!(f.timestamp_ns, ts, "t={t} ta={ta} tb={tb}");
            }
        }
    }
}

#[test]
fn factors_outside_of_the_unit_range_are_refused() {
    let mut interp = LinearBlendInterpolator;
    let a = make_frame(1, 1, 1, 0);
    let b = make_frame(1, 1, 2, 1);
    for t in [-1.0f32, -1.0e-40, 1.0000001, 2.0, f32::INFINITY, f32::NEG_INFINITY, f32::NAN] {
        assert!(matches!(
            interp.interpolate(&a, &b, bits(t)),
            Err(InterpolateError::InvalidFactor(_))
        ));
    }
    // Negative zero lies in the range.
    assert!(interp.interpolate(&a, &b, bits(-0.0)).is_ok());
}

// --- Manager ---

fn manager_frame(value: u8, ts: u64) -> GpuFrame {
    GpuFrame {
        data: vec![value; 64 * 48 * 4],
        width: 64,
        height: 48,
        stride: 256,
        timestamp_ns: ts,
    }
}

fn make_manager() -> InterpolationManager<LinearBlendInterpolator> {
    InterpolationManager::new(LinearBlendInterpolator)
}

#[test]
fn new_manager_empty() {
    let mgr = make_manager();
    assert!(!mgr.can_interpolate());
    assert_eq!(mgr.frame_count(), 0);
    assert_eq!(mgr.interpolated_count(), 0);
    assert_eq!(mgr.backend_name(), "linear-blend");
    assert!(mgr.anchor_timestamp_ns().is_none());
    assert!(mgr.target_timestamp_ns().is_none());
}

#[test]
fn single_frame_cannot_interpolate() {
    let mut mgr = make_manager();
    mgr.push_frame(manager_frame(100, 0));
    assert!(!mgr.can_interpolate());
    assert_eq!(mgr.frame_count(), 1);
    let result = mgr.interpolate(bits(0.5)).unwrap();
    assert!(result.is_none());
}

#[test]
fn two_frames_can_interpolate() {
    let mut mgr = make_manager();
    mgr.push_frame(manager_frame(0, 0));
    mgr.push_frame(manager_frame(200, 16_666_667));
    assert!(mgr.can_interpolate());
    assert_eq!(mgr.frame_count(), 2);
    assert_eq!(mgr.anchor_timestamp_ns(), Some(0));
    assert_eq!(mgr.target_timestamp_ns(), Some(16_666_667));

    let result = mgr.interpolate(bits(0.5)).unwrap().unwrap();
    assert_eq!(result.width, 64);
    assert_eq!(result.height, 48);
    assert_eq!(mgr.interpolated_count(), 1);
    // Blended value should be ~100
    for &px in &result.data {
        assert!((98..=102).contains(&px), "px={px}");
    }
}

#[test]
fn push_slides_window() {
    let mut mgr = make_manager();
    mgr.push_frame(manager_frame(0, 0));
    mgr.push_frame(manager_frame(100, 1000));
    mgr.push_frame(manager_frame(200, 2000));
    // anchor should now be frame with value 100
    assert_eq!(mgr.anchor_timestamp_ns(), Some(1000));
    assert_eq!(mgr.target_timestamp_ns(), Some(2000));
    assert_eq!(mgr.frame_count(), 3);
}

#[test]
fn reset_anchor_clears_on_next_push() {
    let mut mgr = make_manager();
    mgr.push_frame(manager_frame(0, 0));
    mgr.push_frame(manager_frame(100, 1000));
    assert!(mgr.can_interpolate());

    mgr.reset_anchor();
    mgr.push_frame(manager_frame(200, 2000));
    // After reset, anchor is None — only target exists.
    assert!(!mgr.can_interpolate());
    assert!(mgr.anchor_timestamp_ns().is_none());
    assert_eq!(mgr.target_timestamp_ns(), Some(2000));
}

#[test]
fn clear_resets_everything() {
    let mut mgr = make_manager();
    mgr.push_frame(manager_frame(0, 0));
    mgr.push_frame(manager_frame(100, 1000));
    let _ = mgr.interpolate(bits(0.5)).unwrap();

    mgr.clear();
    assert!(!mgr.can_interpolate());
    assert_eq!(mgr.frame_count(), 0);
    assert_eq!(mgr.interpolated_count(), 0);
}

#[test]
fn backend_latency() {
    let mgr = make_manager();
    assert!(f32::from_bits(mgr.backend_latency_ms()) > 0.0);
}

#[test]
fn multiple_interpolations_between_same_pair() {
    let mut mgr = make_manager();
    mgr.push_frame(manager_frame(0, 0));
    mgr.push_frame(manager_frame(255, 10000));

    for i in 1..=5 {
        let t = i as f32 / 6.0;
        let result = mgr.interpolate(bits(t)).unwrap().unwrap();
        assert_eq!(result.width, 64);
    }
    assert_eq!(mgr.interpolated_count(), 5);
}

#[test]
fn manager_full_workflow() {
    let mut mgr = InterpolationManager::new(LinearBlendInterpolator);

    // Push first frame — cannot interpolate yet.
    mgr.push_frame(make_frame(64, 48, 0, 0));
    assert!(!mgr.can_interpolate());
    assert_eq!(mgr.frame_count(), 1);

    // Push second frame — now we can.
    mgr.push_frame(make_frame(64, 48, 200, 16_666_667));
    assert!(mgr.can_interpolate());
    assert_eq!(mgr.frame_count(), 2);

    // Generate 2 intermediate frames.
    let f1 = mgr.interpolate(bits(0.33)).unwrap().unwrap();
    let f2 = mgr.interpolate(bits(0.66)).unwrap().unwrap();
    assert_eq!(mgr.interpolated_count(), 2);

    // f2 pixels should be brighter than f1.
    let avg1: u64 = f1.data.iter().map(|&x| x as u64).sum::<u64>() / f1.data.len() as u64;
    let avg2: u64 = f2.data.iter().map(|&x| x as u64).sum::<u64>() / f2.data.len() as u64;
    assert!(avg2 > avg1);

    // Push third frame — window slides.
    mgr.push_frame(make_frame(64, 48, 50, 33_333_334));
    assert_eq!(mgr.anchor_timestamp_ns(), Some(16_666_667));
    assert_eq!(mgr.target_timestamp_ns(), Some(33_333_334));
}

#[test]
fn manager_anchor_reset_on_scene_change() {
    let mut mgr = InterpolationManager::new(LinearBlendInterpolator);

    mgr.push_frame(make_frame(64, 48, 0, 0));
    mgr.push_frame(make_frame(64, 48, 100, 1000));
    assert!(mgr.can_interpolate());

    // Simulate scene change.
    mgr.reset_anchor();
    mgr.push_frame(make_frame(64, 48, 200, 2000));
    assert!(!mgr.can_interpolate());

    // Next frame restores pair.
    mgr.push_frame(make_frame(64, 48, 220, 3000));
    assert!(mgr.can_interpolate());
}

#[test]
fn manager_clear() {
    let mut mgr = InterpolationManager::new(LinearBlendInterpolator);
    mgr.push_frame(make_frame(64, 48, 0, 0));
    mgr.push_frame(make_frame(64, 48, 100, 1000));
    mgr.interpolate(bits(0.5)).unwrap();

    mgr.clear();
    assert!(!mgr.can_interpolate());
    assert_eq!(mgr.frame_count(), 0);
    assert_eq!(mgr.interpolated_count(), 0);
}

#[test]
fn manager_high_frame_count() {
    let mut mgr = InterpolationManager::new(LinearBlendInterpolator);
    for i in 0..100u64 {
        mgr.push_frame(make_frame(16, 16, (i % 256) as u8, i * 16_666_667));
    }
    assert_eq!(mgr.frame_count(), 100);
    assert!(mgr.can_interpolate());
}

#[test]
fn manager_passes_errors_on_and_does_not_count_them() {
    let mut mgr = InterpolationManager::new(LinearBlendInterpolator);
    mgr.push_frame(make_frame(2, 2, 0, 0));
    mgr.push_frame(make_frame(4, 4, 0, 1));
    assert!(matches!(
        mgr.interpolate(bits(0.5)),
        Err(InterpolateError::DimensionMismatch(2, 2, 4, 4))
    ));
    assert_eq!(mgr.interpolated_count(), 0);
    assert!(mgr.can_interpolate());
}

// --- RIFE ---

fn model(size: u64) -> RifeInterpolator {
    RifeInterpolator::new("/models/model.bin".to_string(), &ModelProbe::Size(size)).unwrap()
}

#[test]
fn rife_is_send_sync() {
    assert_send_sync::<RifeInterpolator>();
}

#[test]
fn rife_model_not_found() {
    let result =
        RifeInterpolator::new("/nonexistent/model.bin".to_string(), &ModelProbe::Missing);
    assert!(result.is_err());
    let err = result.unwrap_err();
    assert!(display(&err).contains("not found"));
}

#[test]
fn rife_default_path_not_found() {
    // Unless the user has installed a model, this should fail.
    let candidates: Vec<ModelCandidate> = default_model_paths(&None, &None)
        .into_iter()
        .map(|path| {
            let probe = if std::path::Path::new(&path).exists() {
                ModelProbe::Size(1)
            } else {
                ModelProbe::Missing
            };
            ModelCandidate { path, probe }
        })
        .collect();
    let result = RifeInterpolator::from_default_path(&candidates);
    // We don't assert is_err because a model might actually exist.
    if let Ok(interp) = result {
        assert_eq!(interp.name(), "rife");
    }
}

#[test]
fn rife_empty_model() {
    let result = RifeInterpolator::new("/models/empty.bin".to_string(), &ModelProbe::Size(0));
    assert!(result.is_err());
    assert!(display(&result.unwrap_err()).contains("empty"));
}

#[test]
fn rife_validates_input() {
    let mut interp = model(27);

    // Invalid t.
    let a = GpuFrame::from_data(vec![0u8; 16], 2, 2, 8, 0);
    let b = GpuFrame::from_data(vec![0u8; 16], 2, 2, 8, 100);
    assert!(interp.interpolate(&a, &b, bits(-0.1)).is_err());
    assert!(interp.interpolate(&a, &b, bits(1.1)).is_err());

    // Dimension mismatch.
    let c = GpuFrame::from_data(vec![0u8; 64], 4, 4, 16, 100);
    assert!(interp.interpolate(&a, &c, bits(0.5)).is_err());
}

#[test]
fn rife_interpolate_returns_not_linked() {
    let mut interp = model(10);
    let a = GpuFrame::from_data(vec![0u8; 16], 2, 2, 8, 0);
    let b = GpuFrame::from_data(vec![0u8; 16], 2, 2, 8, 100);
    let result = interp.interpolate(&a, &b, bits(0.5));
    assert!(result.is_err());
    assert!(display(&result.unwrap_err()).contains("runtime not linked"));
    assert_eq!(f32::from_bits(interp.latency_ms()), 8.0);
    assert_eq!(interp.model_path(), "/models/model.bin");
}

#[test]
fn default_model_paths_not_empty() {
    let paths = default_model_paths(&None, &None);
    // At least /usr/share path should always be present.
    assert!(!paths.is_empty());
}

#[test]
fn default_model_paths_are_those_of_the_user_first() {
    let data = Some("/home/me/data/".to_string());
    let home = Some("/home/me".to_string());
    assert_eq!(
        default_model_paths(&data, &home),
        vec![
            "/home/me/data/remoteway/models/rife-v4.6.bin",
            "/home/me/.local/share/remoteway/models/rife-v4.6.bin",
            "/usr/share/remoteway/models/rife-v4.6.bin",
        ]
    );
    assert_eq!(
        default_model_paths(&Some(String::new()), &None)[0],
        "remoteway/models/rife-v4.6.bin"
    );
}

#[test]
fn the_first_place_with_a_model_is_taken() {
    let candidates = vec![
        ModelCandidate {
            path: "/a".to_string(),
            probe: ModelProbe::Missing,
        },
        ModelCandidate {
            path: "/b".to_string(),
            probe: ModelProbe::Size(3),
        },
        ModelCandidate {
            path: "/c".to_string(),
            probe: ModelProbe::Size(4),
        },
    ];
    let found = RifeInterpolator::from_default_path(&candidates).unwrap();
    assert_eq!(found.model_path(), "/b");
    let unreadable = vec![ModelCandidate {
        path: "/d".to_string(),
        probe: ModelProbe::Unreadable("permission denied".to_string()),
    }];
    let err = RifeInterpolator::from_default_path(&unreadable).unwrap_err();
    assert_eq!(
        display(&err),
        "backend initialization failed: cannot read RIFE model /d: permission denied"
    );
    let none = vec![
        ModelCandidate {
            path: "/a".to_string(),
            probe: ModelProbe::Missing,
        },
        ModelCandidate {
            path: "/b".to_string(),
            probe: ModelProbe::Missing,
        },
    ];
    let err = RifeInterpolator::from_default_path(&none).unwrap_err();
    assert_eq!(
        display(&err),
        "backend initialization failed: RIFE model not found in default locations: /a, /b"
    );
}

#[test]
fn fsr2_rife_name() {
    assert!(!Fsr2RifeInterpolator.name().is_empty());
}

#[test]
fn the_hybrid_reports_a_missing_model() {
    let mut hybrid = Fsr2RifeInterpolator::new(Ok(())).unwrap();
    let a = make_frame(2, 2, 0, 0);
    let b = make_frame(2, 2, 0, 1);
    let err = hybrid.interpolate(&vec![], &a, &b, bits(0.5)).unwrap_err();
    assert_eq!(
        display(&err),
        "interpolation failed: rife: backend initialization failed: RIFE model not found in default locations: "
    );
    assert_eq!(f32::from_bits(hybrid.latency_ms()), 50.0);
    let failed = Fsr2RifeInterpolator::new(Err(InterpolateError::DeviceLost));
    assert!(matches!(failed, Err(InterpolateError::DeviceLost)));
}

// --- Bicubic ---

#[test]
fn taps_stay_inside_of_the_axis() {
    assert_eq!(tap_positions(-1, 5), [0, 0, 1, 2]);
    assert_eq!(tap_positions(0, 5), [0, 0, 1, 2]);
    assert_eq!(tap_positions(2, 5), [1, 2, 3, 4]);
    assert_eq!(tap_positions(4, 5), [3, 4, 4, 4]);
    assert_eq!(tap_positions(9, 5), [3, 4, 4, 4]);
    assert_eq!(tap_positions(0, 1), [0, 0, 0, 0]);
}

#[test]
fn the_samples_around_a_position_come_row_by_row() {
    // 4x4 pixels, the first channel counts them.
    let data: Vec<u8> = (0..16u8).flat_map(|i| [i, 100, 101, 102]).collect();
    let src = GpuFrame::from_data(data, 4, 4, 16, 0);
    assert_eq!(
        gather(&src, 1, 1, 0),
        [0, 1, 2, 3, 4, 5, 6, 7, 8, 9, 10, 11, 12, 13, 14, 15]
    );
    assert_eq!(gather(&src, 1, 1, 3), [102; 16]);
}

#[test]
fn upscaling_weighs_the_samples_of_every_byte() {
    let data: Vec<u8> = (0..2 * 2 * 4).map(|i| i as u8 * 10).collect();
    let src = GpuFrame::from_data(data, 2, 2, 8, 99);
    let xs = vec![-1, 0, 0, 1];
    let ys = vec![-1, 0, 0, 1];
    // The sample at the position itself is the sixth.
    let result =
        cpu_bicubic_upscale(&src, 4, 4, &xs, &ys, |taps: [u8; 16], _x: u32, _y: u32| taps[5])
            .unwrap();
    assert_eq!(result.width, 4);
    assert_eq!(result.stride, 16);
    assert_eq!(result.timestamp_ns, 99);
    assert_eq!(result.data.len(), 64);
    assert_eq!(&result.data[0..4], &[0, 10, 20, 30]);
    assert_eq!(&result.data[12..16], &[40, 50, 60, 70]);
    assert_eq!(&result.data[60..64], &[120, 130, 140, 150]);
}

// --- FSR 2 ---

#[test]
fn fsr2_is_send_sync() {
    assert_send_sync::<Fsr2Interpolator>();
}

#[test]
fn fsr2_push_constants_size() {
    let c = PushConstants {
        width: 1,
        height: 2,
        t: bits(0.5),
        block_size: 8,
        search_radius: 9,
    };
    assert_eq!(c.as_bytes().len(), 20);
    assert_eq!(std::mem::size_of::<PushConstants>(), 20);
    assert_eq!(
        c.as_bytes(),
        vec![1, 0, 0, 0, 2, 0, 0, 0, 0, 0, 0, 0x3f, 8, 0, 0, 0, 9, 0, 0, 0]
    );
}

#[test]
fn fsr2_work_for_full_hd() {
    let interp = Fsr2Interpolator::new();
    let a = make_frame(1920, 1080, 0, 0);
    let b = make_frame(1920, 1080, 1, 1000);
    let work = interp.begin(&a, &b, bits(0.5)).unwrap();
    assert_eq!(work.cache, CacheAction::Create);
    assert_eq!(work.read_size, 1920 * 1080 * 4);
    assert_eq!(work.plan.buffers.len(), 7);
    assert_eq!(work.plan.buffers[fsr2::MOTION].size, 240 * 135 * 8);
    assert_eq!(work.plan.buffers[fsr2::FRAME_A].memory, MemoryKind::DeviceOrHost);
    assert_eq!(work.plan.buffers[fsr2::READBACK].memory, MemoryKind::Host);
    assert_eq!(work.plan.bindings.len(), 7);
    let grids: Vec<(u32, u32, u32)> = work
        .program
        .iter()
        .filter_map(|s| match s {
            Step::Dispatch { x, y, z, .. } => Some((*x, *y, *z)),
            _ => None,
        })
        .collect();
    assert_eq!(grids, vec![(15, 9, 1), (120, 68, 1)]);
    assert_eq!(
        work.program[0],
        Step::CopyBuffer {
            src: fsr2::STAGING_A,
            dst: fsr2::FRAME_A,
            size: 1920 * 1080 * 4
        }
    );
    assert_eq!(fsr2::pass_layouts().len(), 2);
}

#[test]
fn fsr2_keeps_resources_of_the_same_size() {
    let mut interp = Fsr2Interpolator::with_params(16, 4);
    interp.set_cached(Some((64, 64)));
    let a = make_frame(64, 64, 0, 0);
    let b = make_frame(64, 64, 0, 2000);
    assert_eq!(interp.begin(&a, &b, bits(0.5)).unwrap().cache, CacheAction::Keep);
    let c = make_frame(32, 64, 0, 0);
    let d = make_frame(32, 64, 0, 0);
    assert_eq!(interp.begin(&c, &d, bits(0.5)).unwrap().cache, CacheAction::Replace);
    assert!(matches!(
        interp.begin(&a, &c, bits(0.5)),
        Err(InterpolateError::DimensionMismatch(64, 64, 32, 64))
    ));
    assert!(matches!(
        interp.begin(&a, &b, bits(1.5)),
        Err(InterpolateError::InvalidFactor(_))
    ));
    let f = Fsr2Interpolator::finish(&a, &b, bits(0.5), vec![9; 64 * 64 * 4]);
    assert_eq!(f.timestamp_ns, 1000);
    assert_eq!(f.data[0], 9);
    assert_eq!(interp.name(), "fsr2");
    assert_eq!(f32::from_bits(interp.latency_ms()), 5.0);
}

#[test]
fn every_backend_refuses_a_factor_first() {
    // Frames of a size that no buffer can have, and of different sizes.
    let huge = |width: u32| GpuFrame {
        data: Vec::new(),
        width,
        height: u32::MAX,
        stride: 0,
        timestamp_ns: 0,
    };
    let (a, b) = (huge(u32::MAX), huge(u32::MAX - 1));
    let bad = bits(1.5);
    let refused = |r: Result<(), InterpolateError>| {
        assert!(matches!(r, Err(InterpolateError::InvalidFactor(t)) if t == bad));
    };
    let mismatch = |r: Result<(), InterpolateError>| {
        assert!(matches!(
            r,
            Err(InterpolateError::DimensionMismatch(w, _, v, _)) if w == v + 1
        ));
    };
    let good = bits(0.5);
    for (t, check) in [
        (bad, &refused as &dyn Fn(Result<(), InterpolateError>)),
        (good, &mismatch),
    ] {
        check(LinearBlendInterpolator.interpolate(&a, &b, t).map(|_| ()));
        check(Fsr2Interpolator::new().begin(&a, &b, t).map(|_| ()));
        check(nvidia().begin(&a, &b, t).map(|_| ()));
        let wgpu = WgpuOpticalFlowInterpolator::new(true).unwrap();
        check(wgpu.begin(&a, &b, t).map(|_| ()));
        let mut native = Fsr2NativeInterpolator::new(Ok(())).unwrap();
        check(native.interpolate(&a, &b, t).map(|_| ()));
        let mut hybrid = Fsr2RifeInterpolator::new(Ok(())).unwrap();
        check(hybrid.interpolate(&vec![], &a, &b, t).map(|_| ()));
        let fsr3 = Fsr3Interpolator::new(Ok(()), Ok(())).unwrap();
        check(fsr3.check_request(&a, &b, t));
    }
    let fsr3 = Fsr3Interpolator::new(Ok(()), Ok(())).unwrap();
    assert!(fsr3.check_request(&a, &a, good).is_ok());
}

#[test]
fn a_manager_passes_a_refusal_on() {
    let probe = ModelProbe::Size(1);
    let rife = RifeInterpolator::new("/model".to_string(), &probe).unwrap();
    let mut mgr = InterpolationManager::new(rife);
    mgr.push_frame(make_frame(2, 2, 0, 0));
    mgr.push_frame(make_frame(2, 2, 0, 1));
    assert!(matches!(
        mgr.interpolate(bits(-0.5)),
        Err(InterpolateError::InvalidFactor(t)) if t == bits(-0.5)
    ));
    assert!(matches!(
        mgr.interpolate(bits(0.5)),
        Err(InterpolateError::InterpolateFailed(m)) if m.contains("/model")
    ));
    assert_eq!(mgr.interpolated_count(), 0);
}

#[test]
fn frames_are_uploaded_in_order() {
    let a = make_frame(8, 8, 3, 0);
    let b = make_frame(8, 8, 4, 0);
    let fsr2 = Fsr2Interpolator::new();
    let work = fsr2.begin(&a, &b, bits(0.5)).unwrap();
    assert_eq!(
        uploaded(&work.uploads),
        vec![(fsr2::STAGING_A, &a.data[..]), (fsr2::STAGING_B, &b.data[..])]
    );
    let flow = nvidia();
    let work = flow.begin(&a, &b, bits(0.5)).unwrap();
    assert_eq!(
        uploaded(&work.uploads),
        vec![
            (nvidia_optical_flow::STAGING_A, &a.data[..]),
            (nvidia_optical_flow::STAGING_B, &b.data[..])
        ]
    );
    let wgpu = WgpuOpticalFlowInterpolator::new(true).unwrap();
    let work = wgpu.begin(&a, &b, bits(0.5)).unwrap();
    assert_eq!(
        uploaded(&work.uploads),
        vec![
            (wgpu_optical_flow::FRAME_A, &a.data[..]),
            (wgpu_optical_flow::FRAME_B, &b.data[..]),
            (wgpu_optical_flow::PARAMS, &work.params.as_bytes()[..])
        ]
    );
}

#[test]
fn depth_and_motion_are_uploaded_once() {
    let mut up = Fsr2NativeInterpolator::new(Ok(())).unwrap();
    let src = make_frame(2, 3, 9, 0);
    let work = up.begin_upscale(&src, 4, 6);
    let one = 1.0f32.to_le_bytes();
    assert_eq!(
        uploaded(&work.init_uploads),
        vec![
            (fsr2_native::STAGING_DEPTH, &[one; 6].concat()[..]),
            (fsr2_native::STAGING_MOTION, &[0u8; 24][..])
        ]
    );
    assert_eq!(
        uploaded(&work.uploads),
        vec![(fsr2_native::STAGING_COLOR, &src.data[..])]
    );
    up.set_cached(Some(work.resolutions));
    let work = up.begin_upscale(&src, 4, 6);
    assert!(work.init_uploads.is_empty());
    assert_eq!(work.uploads.len(), 1);
}

#[test]
fn frame_generation_fills_three_images() {
    let fg = Fsr3FrameGen::new(2, 3, 4, 6);
    let a = make_frame(2, 3, 0, 0);
    let b = make_frame(2, 3, 255, 0);
    let uploads = fg.begin(&a, &b, &to_half()).unwrap();
    let filled: Vec<(usize, u32, u32)> =
        uploads.iter().map(|u| (u.image, u.width, u.height)).collect();
    assert_eq!(
        filled,
        vec![(INPUT_COLOR, 2, 3), (INPUT_DEPTH, 2, 3), (INPUT_MV, 2, 3)]
    );
    // The second frame, at 16 bits for each channel.
    let white = to_half()[255].to_le_bytes();
    assert_eq!(uploads[0].data.bytes(), &[white; 24].concat()[..]);
    assert_eq!(uploads[1].data.bytes(), &[1.0f32.to_le_bytes(); 6].concat()[..]);
    assert_eq!(uploads[2].data.bytes(), &[0u8; 24][..]);
}

#[test]
fn upscaling_forgets_its_history() {
    let s = fsr2_native::Resolutions {
        src_w: 1280,
        src_h: 720,
        dst_w: 1920,
        dst_h: 1080,
    };
    let context = fsr2_native::context_parameters(s);
    assert!(context.depth_infinite && context.depth_inverted);
    assert_eq!((context.max_render_w, context.max_render_h), (1280, 720));
    assert_eq!((context.display_w, context.display_h), (1920, 1080));
    let dispatch = fsr2_native::dispatch_parameters(s);
    assert!(dispatch.reset);
    assert_eq!((dispatch.render_w, dispatch.render_h), (1280, 720));
    assert_eq!(f32::from_bits(dispatch.frame_time_delta), 1.0 / 60.0);
    assert_eq!(f32::from_bits(dispatch.sharpness), 0.85);
    assert_eq!((dispatch.jitter_x, dispatch.jitter_y), (bits(0.0), bits(0.0)));
    assert_eq!(
        (dispatch.color, dispatch.depth, dispatch.motion_vectors, dispatch.output),
        (
            fsr2_native::COLOR,
            fsr2_native::DEPTH,
            fsr2_native::MOTION_VECTORS,
            fsr2_native::OUTPUT
        )
    );
}

#[test]
fn nvidia_of_finds_motion_from_the_first_frame_to_the_second() {
    let session = session_description(65, 33);
    assert_eq!((session.width, session.height, session.grid), (65, 33, 4));
    assert_eq!(session.image_format, Format::Rgba8);
    assert_eq!(session.flow_vector_format, Format::Rg16Float);
    let bound: Vec<_> = session
        .bindings
        .iter()
        .map(|b| (b.point, b.image, b.layout))
        .collect();
    assert_eq!(
        bound,
        vec![
            (SessionPoint::Input, nvidia_optical_flow::IMAGE_A, Layout::General),
            (SessionPoint::Reference, nvidia_optical_flow::IMAGE_B, Layout::General),
            (SessionPoint::FlowVector, nvidia_optical_flow::FLOW_IMAGE, Layout::General),
        ]
    );
}

#[test]
fn as_many_bytes_are_read_as_the_frame_has() {
    let a = make_frame(5, 3, 1, 0);
    let size = 5 * 3 * 4;
    assert_eq!(Fsr2Interpolator::new().begin(&a, &a, 0).unwrap().read_size, size);
    assert_eq!(nvidia().begin(&a, &a, 0).unwrap().read_size, size);
    let wgpu = WgpuOpticalFlowInterpolator::new(true).unwrap();
    assert_eq!(wgpu.begin(&a, &a, 0).unwrap().read_size, size);
    let mut up = Fsr2NativeInterpolator::new(Ok(())).unwrap();
    // Whatever the last size was.
    for (w, h) in [(10u32, 6u32), (4, 8), (11, 7)] {
        let work = up.begin_upscale(&a, w, h);
        assert_eq!(work.read_size, u64::from(w * h * 4));
        assert_ne!(work.cache, CacheAction::Keep);
        let data = vec![0; work.read_size as usize];
        up.set_cached(Some(work.resolutions));
        let f = Fsr2NativeInterpolator::finish_upscale(&a, w, h, data);
        assert_eq!((f.width, f.height, f.stride), (w, h, w * 4));
        assert_eq!(f.data.len(), (w * h * 4) as usize);
    }
    // Nothing is done twice for the same size.
    let work = up.begin_upscale(&a, 11, 7);
    assert!(work.init.is_empty() && work.init_uploads.is_empty());
}

#[test]
fn negative_zero_is_the_first_frame() {
    let a = make_frame(2, 2, 10, 100);
    let b = make_frame(2, 2, 20, 200);
    let f = LinearBlendInterpolator.interpolate(&a, &b, bits(-0.0)).unwrap();
    assert_eq!(f.data, a.data);
    assert_eq!(f.timestamp_ns, 100);
}

#[test]
fn times_of_a_double_meet_the_second_frame() {
    for delta in [1u64 << 53, 3 << 60, (1 << 53) - 1] {
        let a = make_frame(1, 1, 0, 7);
        let b = make_frame(1, 1, 0, 7 + delta);
        let f = LinearBlendInterpolator.interpolate(&a, &b, bits(1.0)).unwrap();
        assert_eq!(f.timestamp_ns, 7 + delta);
    }
}

#[test]
fn a_failed_wgpu_device_says_why() {
    assert_eq!(
        display(&device_failed("lost")),
        "backend initialization failed: wgpu device: lost"
    );
}

// --- FSR 2 native ---

#[test]
fn fsr2_native_is_send_sync() {
    assert_send_sync::<Fsr2NativeInterpolator>();
}

#[test]
fn fsr2_native_only_upscales() {
    let mut up = Fsr2NativeInterpolator::new(Ok(())).unwrap();
    let a = make_frame(2, 2, 0, 0);
    let b = make_frame(2, 2, 0, 0);
    let err = up.interpolate(&a, &b, bits(0.5)).unwrap_err();
    assert!(display(&err).contains("use upscale() instead"));
    assert_eq!(up.name(), "fsr2-native");
    assert_eq!(f32::from_bits(up.latency_ms()), 1.5);
    match Fsr2NativeInterpolator::new(Err("no driver".to_string())) {
        Err(e) => assert_eq!(
            display(&e),
            "backend initialization failed: FSR interface: no driver"
        ),
        Ok(_) => panic!("there is no interface"),
    }
}

#[test]
fn fsr2_native_resources_follow_both_resolutions() {
    let mut up = Fsr2NativeInterpolator::new(Ok(())).unwrap();
    let src = make_frame(1280, 720, 7, 55);
    let work = up.begin_upscale(&src, 1920, 1080);
    assert_eq!(work.cache, CacheAction::Create);
    assert_eq!(work.read_size, 1920 * 1080 * 4);
    assert_eq!(work.plan.images[fsr2_native::DEPTH].format, Format::R32Float);
    assert_eq!(work.plan.images[fsr2_native::OUTPUT].width, 1920);
    assert_eq!(work.plan.buffers[fsr2_native::STAGING_MOTION].size, 1280 * 720 * 4);
    assert_eq!(work.init.len(), 6);
    assert_eq!(work.frame[5], Step::Sdk(SdkWork::Upscale));
    up.set_cached(Some(work.resolutions));
    assert_eq!(up.begin_upscale(&src, 1920, 1080).cache, CacheAction::Keep);
    assert_eq!(up.begin_upscale(&src, 1920, 1081).cache, CacheAction::Replace);
    let f = Fsr2NativeInterpolator::finish_upscale(&src, 1920, 1080, vec![1, 2, 3]);
    assert_eq!((f.width, f.height, f.stride, f.timestamp_ns), (1920, 1080, 7680, 55));
    assert_eq!(f.data, vec![1, 2, 3]);
}

#[test]
fn scratch_is_far_depth_and_no_motion() {
    let one = 1.0f32.to_le_bytes();
    assert_eq!(fsr2_native::depth_scratch(2), [one, one].concat());
    assert_eq!(fsr2_native::motion_scratch(2), vec![0u8; 8]);
    assert!(fsr2_native::depth_scratch(0).is_empty());
}

// --- NVIDIA optical flow ---

#[test]
fn nvidia_of_is_send_sync() {
    assert_send_sync::<NvidiaOpticalFlowInterpolator>();
}

#[test]
fn nvidia_optical_flow_push_constants_size() {
    assert_eq!(std::mem::size_of::<PushConstants>(), 20);
    assert_eq!(std::mem::size_of::<FlowConvertPc>(), 4);
    assert_eq!(FlowConvertPc { count: 258 }.as_bytes(), vec![2, 1, 0, 0]);
}

fn nvidia() -> NvidiaOpticalFlowInterpolator {
    let exts = vec!["VK_NV_optical_flow".to_string()];
    NvidiaOpticalFlowInterpolator::new(0x10DE, &exts, &vec![true; 4]).unwrap()
}

#[test]
fn nvidia_of_needs_its_device() {
    let exts = vec!["VK_NV_optical_flow".to_string()];
    let reason = |r: Result<NvidiaOpticalFlowInterpolator, InterpolateError>| match r {
        Err(InterpolateError::InitFailed(m)) => m,
        _ => panic!("the device cannot be used"),
    };
    assert_eq!(
        reason(NvidiaOpticalFlowInterpolator::new(0x1002, &exts, &vec![true; 4])),
        "NVIDIA optical flow requires an NVIDIA GPU"
    );
    assert_eq!(
        reason(NvidiaOpticalFlowInterpolator::new(0x10DE, &vec![], &vec![true; 4])),
        "VK_NV_optical_flow extension not available (requires Turing+ GPU)"
    );
    assert_eq!(
        reason(NvidiaOpticalFlowInterpolator::new(
            0x10DE,
            &exts,
            &vec![true, true, false, false]
        )),
        "vkBindOpticalFlowSessionImageNV not found"
    );
}

#[test]
fn nvidia_of_work_for_an_odd_size() {
    let mut interp = nvidia();
    let a = make_frame(65, 33, 0, 0);
    let b = make_frame(65, 33, 0, 10);
    let work = interp.begin(&a, &b, bits(0.25)).unwrap();
    // 65x33 pixels are 17x9 blocks.
    assert_eq!(work.plan.images[nvidia_optical_flow::FLOW_IMAGE].width, 17);
    assert_eq!(work.plan.images[nvidia_optical_flow::FLOW_IMAGE].height, 9);
    assert_eq!(work.plan.buffers[nvidia_optical_flow::FLOW_RAW].size, 17 * 9 * 4);
    assert_eq!(work.plan.buffers[nvidia_optical_flow::MOTION].size, 17 * 9 * 8);
    assert_eq!(work.program.len(), 18);
    assert_eq!(
        work.program[13],
        Step::Dispatch {
            pass: nvidia_optical_flow::CONVERT_PASS,
            constants: PassConstants::FlowConvert(FlowConvertPc { count: 153 }),
            x: 1,
            y: 1,
            z: 1
        }
    );
    assert_eq!(
        work.program[15],
        Step::Dispatch {
            pass: nvidia_optical_flow::WARP_PASS,
            constants: PassConstants::Warp(PushConstants {
                width: 65,
                height: 33,
                t: bits(0.25),
                block_size: 4,
                search_radius: 0
            }),
            x: 5,
            y: 3,
            z: 1
        }
    );
    interp.set_cached(Some((65, 33)));
    assert_eq!(interp.begin(&a, &b, bits(0.25)).unwrap().cache, CacheAction::Keep);
    let f = NvidiaOpticalFlowInterpolator::finish(&a, &b, bits(0.25), vec![]);
    assert_eq!(f.timestamp_ns, 2);
    assert_eq!(interp.name(), "nvidia-optical-flow");
    assert_eq!(f32::from_bits(interp.latency_ms()), 2.0);
    assert_eq!(nvidia_optical_flow::entry_points().len(), 4);
    assert_eq!(nvidia_optical_flow::pass_layouts()[0].constant_bytes, 4);
}

// --- wgpu ---

#[test]
fn wgpu_of_is_send_sync() {
    assert_send_sync::<WgpuOpticalFlowInterpolator>();
}

#[test]
fn params_layout() {
    let p = Params {
        width: 1,
        height: 2,
        level_width: 3,
        level_height: 4,
        t: bits(1.0),
        block_size: 8,
        search_radius: 8,
    };
    assert_eq!(p.as_bytes().len(), 32);
    assert_eq!(&p.as_bytes()[16..20], &1.0f32.to_le_bytes());
    assert_eq!(&p.as_bytes()[28..], &[0; 4]);
}

#[test]
fn wgpu_of_work_for_full_hd() {
    let mut interp = WgpuOpticalFlowInterpolator::new(true).unwrap();
    let a = make_frame(1920, 1080, 0, 0);
    let b = make_frame(1920, 1080, 0, 100);
    let work = interp.begin(&a, &b, bits(0.5)).unwrap();
    assert_eq!(work.cache, CacheAction::Create);
    assert_eq!(work.grayscale, Grid { x: 8100, y: 1 });
    assert_eq!(work.block_match, Grid { x: 15, y: 9 });
    assert_eq!(work.warp_blend, Grid { x: 120, y: 68 });
    assert_eq!(work.sizes.frame, 8_294_400);
    assert_eq!(work.sizes.pyramid, (2_073_600, 518_400, 129_600));
    assert_eq!(work.sizes.motion, 240 * 135 * 8);
    assert_eq!(work.sizes.params, 32);
    assert_eq!(buffer_sizes(1920, 1080), work.sizes);
    interp.set_cached(Some((1, 1)));
    assert_eq!(interp.begin(&a, &b, bits(0.5)).unwrap().cache, CacheAction::Replace);
    assert_eq!(
        WgpuOpticalFlowInterpolator::finish(&a, &b, bits(0.5), vec![]).timestamp_ns,
        50
    );
    assert_eq!(interp.name(), "wgpu-optical-flow");
    assert_eq!(f32::from_bits(interp.latency_ms()), 3.0);
    assert!(WgpuOpticalFlowInterpolator::new(false).is_err());
}

// --- FSR 3 ---

#[test]
fn fsr3_fg_is_send_sync() {
    assert_send_sync::<Fsr3FrameGen>();
}

fn to_half() -> Vec<u16> {
    (0..=255u8)
        .map(|v| half::f16::from_f32(f32::from(v) / 255.0).to_bits())
        .collect()
}

fn from_half() -> Vec<u8> {
    (0..=u16::MAX)
        .map(|b| {
            let v = half::f16::from_bits(b).to_f32();
            (v * 255.0).round().clamp(0.0, 255.0) as u8
        })
        .collect()
}

#[test]
fn pixels_survive_the_way_through_half_precision() {
    // Two rows of 2 pixels, padded to 12 bytes.
    let data: Vec<u8> = (0..24u8).map(|i| i * 10).collect();
    let wide = widen(&data, 2, 2, 12, &to_half());
    assert_eq!(wide.len(), 2 * 2 * 8);
    // The second channel of the first pixel is 10.
    let ten = half::f16::from_f32(10.0 / 255.0).to_le_bytes();
    assert_eq!(&wide[2..4], &ten);
    let back = narrow(&wide, 2, 2, &from_half());
    assert_eq!(&back[..8], &data[..8]);
    assert_eq!(&back[8..], &data[12..20]);
}

#[test]
fn every_byte_comes_back_from_half_precision() {
    let narrow_table = from_half();
    for (v, h) in to_half().into_iter().enumerate() {
        assert_eq!(usize::from(narrow_table[usize::from(h)]), v);
    }
}

#[test]
fn frame_generation_plans_its_resources() {
    let fg = Fsr3FrameGen::new(1280, 720, 1920, 1080);
    let shared = FfxFrameInterpolationSharedResourceDescriptions {
        dilated_depth: FfxResourceDescription::texture(28, 1280, 720),
        dilated_motion_vectors: FfxResourceDescription::texture(18, 1280, 720),
        reconstructed_prev_nearest_depth: FfxResourceDescription::texture(28, 1281, 721),
    };
    let plan = fg.plan(shared);
    assert_eq!(plan.images.len(), 8);
    assert_eq!(plan.buffers[0].size, 1281 * 721 * 4);
    assert_eq!(plan.buffers[0].memory, MemoryKind::Device);
    assert_eq!(plan.buffers[STAGING].size, 1920 * 1080 * 8);
    assert_eq!(plan.images[OUTPUT_COLOR].format, Format::Rgba16Float);
    assert_eq!(plan.images[OUTPUT_COLOR].width, 1920);
    let desc = fg.context_description(FfxInterface::default());
    assert_eq!(desc.flags, 15);
    assert_eq!(desc.display_size, FfxDimensions2D { width: 1920, height: 1080 });
    assert_eq!(fg.read_size(), 1920 * 1080 * 8);
    assert_eq!(upload_buffer(5).size, 5);
    assert_eq!(upload_program(2, 3, 4).len(), 2);
}

#[test]
fn frame_generation_numbers_its_frames() {
    let mut fg = Fsr3FrameGen::new(2, 2, 4, 4);
    assert_eq!(fg.next_frame_id(), 0);
    assert_eq!(fg.next_frame_id(), 1);
    assert_eq!(fg.name(), "fsr3-fg");
    assert_eq!(f32::from_bits(fg.latency_ms()), 16.67);
    let prepare = fg.prepare_parameters(7);
    assert_eq!(prepare.frame_id, 7);
    assert_eq!(prepare.reconstructed_prev_depth.description.width, 4);
    assert_eq!(prepare.reconstructed_prev_depth.description.type_, 0);
    let dispatch = fg.dispatch_parameters(7);
    assert_eq!(
        dispatch.interpolation_rect,
        FfxRect2D { left: 0, top: 0, width: 4, height: 4 }
    );
    assert_eq!(dispatch.output.description.usage, 2);
    assert_eq!(dispatch.flags, 1);
}

#[test]
fn frame_generation_commands_are_in_order() {
    let fg = Fsr3FrameGen::new(2, 2, 4, 4);
    let steps = fg.generate_program();
    assert_eq!(steps.len(), 12);
    assert_eq!(steps[8], Step::Sdk(SdkWork::Prepare));
    assert_eq!(steps[9], Step::Sdk(SdkWork::Generate));
    assert_eq!(
        steps[7],
        Step::ImageBarrier {
            image: OUTPUT_COLOR,
            from: Layout::Undefined,
            to: Layout::General,
            src_access: Access::Nothing,
            dst_access: Access::ShaderWrite,
            src_stage: Stage::Top,
            dst_stage: Stage::Compute
        }
    );
}

#[test]
fn a_generated_frame_lies_in_the_middle() {
    let fg = Fsr3FrameGen::new(1, 1, 1, 1);
    let a = make_frame(1, 1, 0, 100);
    let b = make_frame(1, 1, 200, 201);
    let uploads = fg.begin(&a, &b, &to_half()).unwrap();
    let pixels = uploads[0].data.bytes().to_vec();
    let frame = fg.finish(&a, &b, &pixels, &from_half());
    assert_eq!(frame.data, vec![200; 4]);
    assert_eq!(frame.timestamp_ns, 150);
    assert_eq!(frame.stride, 4);
    // Frames out of order keep the time of the first.
    assert_eq!(fg.finish(&b, &a, &pixels, &from_half()).timestamp_ns, 201);
    let c = make_frame(2, 1, 0, 0);
    assert!(matches!(
        fg.begin(&a, &c, &to_half()),
        Err(InterpolateError::DimensionMismatch(1, 1, 2, 1))
    ));
}

#[test]
fn failed_sdk_calls_say_which() {
    assert!(check_call(FfxCall::Prepare, FFX_OK).is_none());
    let f = check_call(FfxCall::GetInterface, -2147483648).unwrap();
    assert_eq!(
        display(&f.error),
        "backend initialization failed: ffxGetInterfaceVK failed: -2147483648"
    );
    assert!(!f.destroy_context && !f.free_commands);
    let f = check_call(FfxCall::SharedDescriptions, 3).unwrap();
    assert!(f.destroy_context);
    let f = check_call(FfxCall::Dispatch, 12).unwrap();
    assert_eq!(
        display(&f.error),
        "interpolation failed: ffxFrameInterpolationDispatch failed: 12"
    );
    assert!(f.free_commands);
    assert_eq!(
        display(&resource_failure(true, 4, "no memory")),
        "backend initialization failed: dilated_depth image: no memory"
    );
}

#[test]
fn sdk_data_has_its_defaults() {
    let d = FfxResourceDescription::default();
    assert_eq!((d.type_, d.depth, d.mip_count, d.usage), (2, 1, 1, 0));
    assert_eq!(FfxResourceDescription::render_target(10, 1, 1).usage, 3);
    assert_eq!(FfxRect2D::default().width, 0);
    assert_eq!(FfxEffectMemoryUsage::default().total_usage_in_bytes, 0);
    assert!(FfxInterface::default().bytes().iter().all(|b| *b == 0));
    assert_eq!(FfxInterface::default().bytes().len(), FFX_INTERFACE_SIZE);
    assert_eq!(FfxDimensions2D::default(), FfxDimensions2D { width: 0, height: 0 });
}

#[test]
fn fsr3_does_without_its_upscaler() {
    let both = Fsr3Interpolator::new(Ok(()), Ok(())).unwrap();
    assert_eq!(both.upscale_route(), UpscaleRoute::Native);
    assert!(both.check_frame_gen().is_ok());
    assert_eq!(both.name(), "fsr3");
    assert_eq!(f32::from_bits(both.latency_ms()), 16.67);
    let one = Fsr3Interpolator::new(Ok(()), Err(InterpolateError::NoBackend)).unwrap();
    assert_eq!(one.upscale_route(), UpscaleRoute::Bicubic);
    assert!(Fsr3Interpolator::new(Err(InterpolateError::DeviceLost), Ok(())).is_err());
    let none = Fsr3Interpolator {
        frame_gen: false,
        upscaler: false,
    };
    assert!(none.check_frame_gen().is_err());
}
