use voip_core::backend::{capture_policy, select_backend, BackendKind, CaptureBackend};
use voip_core::errors::CoreError;
use voip_core::pace::{
    bgra_len_ok, capture_step, frame_interval_ms, pace_sleep_ms, should_report_fps, stamp_frame,
    CaptureAction, FrameEvent, FPS_REPORT_INTERVAL, FRAME_TIMEOUT_MS,
    LOW_POWER_FPS_REPORT_INTERVAL, LOW_POWER_FRAME_TIMEOUT_MS,
};
use voip_core::{backend_label, platform_info, recommended_capture_backend};

#[test]
fn test_platform_info() {
    assert_eq!(platform_info(), "Linux");
}

#[test]
fn test_backend_label() {
    assert_eq!(backend_label(true), "nvfbc (NVIDIA GPU, 50+ FPS)");
    assert_eq!(backend_label(false), "xcap (X11/Wayland, ~30 FPS)");
}

#[test]
fn test_recommended_backend() {
    assert_eq!(recommended_capture_backend(), "xcap (X11/Wayland, ~30 FPS)");
}

#[test]
fn test_select_backend_order() {
    assert_eq!(select_backend(true, true), BackendKind::GpuFramebuffer);
    assert_eq!(select_backend(true, false), BackendKind::GpuFramebuffer);
    assert_eq!(select_backend(false, true), BackendKind::Portal);
    assert_eq!(select_backend(false, false), BackendKind::Generic);
}

#[test]
fn test_capture_policy() {
    assert_eq!(capture_policy(true, 3840, 2160), (30, 1280, 720));
    assert_eq!(capture_policy(false, 3840, 2160), (60, 3840, 2160));
}

#[test]
fn test_capture_backend_default() {
    assert_eq!(CaptureBackend::default(), CaptureBackend::Xcap);
}

#[test]
fn test_capture_step() {
    assert_eq!(capture_step(false, FrameEvent::Frame), CaptureAction::Stop);
    assert_eq!(capture_step(true, FrameEvent::Frame), CaptureAction::Deliver);
    assert_eq!(capture_step(true, FrameEvent::Timeout), CaptureAction::Retry);
    assert_eq!(capture_step(true, FrameEvent::Error), CaptureAction::Retry);
}

#[test]
fn test_timeout_constants() {
    assert_eq!(FRAME_TIMEOUT_MS, 50);
    assert_eq!(LOW_POWER_FRAME_TIMEOUT_MS, 100);
    assert_eq!(FPS_REPORT_INTERVAL, 300);
    assert_eq!(LOW_POWER_FPS_REPORT_INTERVAL, 150);
}

#[test]
fn test_pacing() {
    assert_eq!(frame_interval_ms(60), 16);
    assert_eq!(frame_interval_ms(30), 33);
    assert_eq!(pace_sleep_ms(16, 10), 6);
    assert_eq!(pace_sleep_ms(16, 16), 0);
    assert_eq!(pace_sleep_ms(16, 100), 0);
}

#[test]
fn test_fps_report_cadence() {
    assert!(should_report_fps(300, false));
    assert!(!should_report_fps(299, false));
    assert!(should_report_fps(600, false));
    assert!(should_report_fps(150, true));
    assert!(!should_report_fps(149, true));
}

#[test]
fn test_stamp_frame() {
    let meta = stamp_frame(123_456_789);
    assert_eq!(meta.timestamp_us, 123_456_789);
    assert_eq!(meta.rotation, 0);
}

#[test]
fn test_bgra_len_check() {
    assert!(bgra_len_ok(1920 * 1080 * 4, 1920, 1080));
    assert!(!bgra_len_ok(1920 * 1080 * 4 - 1, 1920, 1080));
    assert!(!bgra_len_ok(0, 1920, 1080));
    assert!(bgra_len_ok(0, 0, 0));
}

#[test]
fn test_error_kinds_are_distinct() {
    let kinds = [
        CoreError::DeviceNotFound,
        CoreError::UnsupportedFormat,
        CoreError::BackendUnavailable,
        CoreError::BufferSizeMismatch,
        CoreError::Overflow,
        CoreError::Underflow,
        CoreError::Timeout,
        CoreError::ProcessingError,
        CoreError::ShutdownFailure,
    ];
    for (i, a) in kinds.iter().enumerate() {
        for (j, b) in kinds.iter().enumerate() {
            assert_eq!(i == j, a == b);
        }
    }
}
