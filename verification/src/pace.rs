//! Frame pacing, capture-loop stepping, report cadence, and timestamping
//! for the video pump.
//!
//! The capture workers are loops around a blocking frame wait with a
//! bounded timeout; the decisions those loops take — deliver, retry, or
//! stop — are pure functions of the running flag and the wait's outcome,
//! so shutdown latency stays bounded by one timeout.

use vstd::prelude::*;

verus! {

/// Frame-wait timeout of the GPU framebuffer capturer, in milliseconds.
pub const FRAME_TIMEOUT_MS: u64 = 50;

/// Frame-wait timeout under the low-power profile, in milliseconds.
pub const LOW_POWER_FRAME_TIMEOUT_MS: u64 = 100;

/// Frames between rate reports.
pub const FPS_REPORT_INTERVAL: u64 = 300;

/// Frames between rate reports under the low-power profile.
pub const LOW_POWER_FPS_REPORT_INTERVAL: u64 = 150;

/// How a frame wait ended.
#[derive(Clone, Copy, Debug, PartialEq, Eq, Structural)]
pub enum FrameEvent {
    /// A frame arrived.
    Frame,
    /// The wait elapsed without a frame; not an error.
    Timeout,
    /// The wait failed.
    Error,
}

/// What a capture worker does next.
#[derive(Clone, Copy, Debug, PartialEq, Eq, Structural)]
pub enum CaptureAction {
    /// Convert and deliver the frame downstream.
    Deliver,
    /// Wait for the next frame.
    Retry,
    /// Leave the loop and stop the session.
    Stop,
}

/// One decision of a capture worker: stop as soon as the running flag
/// is cleared; otherwise deliver an arrived frame, and retry after a
/// timeout or a transient error.
pub fn capture_step(running: bool, ev: FrameEvent) -> (r: CaptureAction)
    ensures
        !running ==> r == CaptureAction::Stop,
        running && ev == FrameEvent::Frame ==> r == CaptureAction::Deliver,
        running && ev != FrameEvent::Frame ==> r == CaptureAction::Retry,
{
    if !running {
        CaptureAction::Stop
    } else {
        match ev {
            FrameEvent::Frame => CaptureAction::Deliver,
            FrameEvent::Timeout => CaptureAction::Retry,
            FrameEvent::Error => CaptureAction::Retry,
        }
    }
}

/// The pacing interval for a target rate, in milliseconds.
pub fn frame_interval_ms(fps: u32) -> (r: u64)
    requires
        fps >= 1,
    ensures
        r == 1000int / (fps as int),
{
    1000u64 / (fps as u64)
}

/// How long a paced loop sleeps after a capture that took
/// `elapsed_ms`: the remainder of the interval, or nothing when the
/// capture already took at least that long (the frame is emitted
/// immediately).
pub fn pace_sleep_ms(interval_ms: u64, elapsed_ms: u64) -> (r: u64)
    ensures
        elapsed_ms < interval_ms ==> r == interval_ms - elapsed_ms,
        elapsed_ms >= interval_ms ==> r == 0,
{
    if elapsed_ms < interval_ms {
        interval_ms - elapsed_ms
    } else {
        0
    }
}

/// Whether a worker emits its rate report after this frame: every 300
/// frames, or every 150 under the low-power profile.
pub fn should_report_fps(frame_count: u64, low_power: bool) -> (r: bool)
    ensures
        low_power ==> r == (frame_count % LOW_POWER_FPS_REPORT_INTERVAL == 0),
        !low_power ==> r == (frame_count % FPS_REPORT_INTERVAL == 0),
{
    if low_power {
        frame_count % LOW_POWER_FPS_REPORT_INTERVAL == 0
    } else {
        frame_count % FPS_REPORT_INTERVAL == 0
    }
}

/// Presentation data stamped onto a converted frame before delivery.
#[derive(Clone, Copy, Debug, PartialEq, Eq, Structural)]
pub struct FrameMeta {
    /// Monotonic capture timestamp in microseconds.
    pub timestamp_us: i64,
    /// Rotation tag; the pump always delivers unrotated frames.
    pub rotation: u32,
}

/// Stamp a frame for delivery: carry the capture timestamp through and
/// set rotation to zero.
pub fn stamp_frame(timestamp_us: i64) -> (r: FrameMeta)
    ensures
        r.timestamp_us == timestamp_us,
        r.rotation == 0,
{
    FrameMeta { timestamp_us, rotation: 0 }
}

/// Whether a captured buffer is delivered downstream by the generic
/// capturer: only when it holds exactly 4 bytes per pixel; anything
/// else is skipped.
pub fn bgra_len_ok(len: usize, width: u32, height: u32) -> (r: bool)
    ensures
        r == (len as int == 4 * ((width as int) * (height as int))),
{
    proof {
        assert((width as int) * (height as int) <= 0xffff_ffff_ffff_ffff) by (nonlinear_arith)
            requires
                width <= 0xffff_ffffu32,
                height <= 0xffff_ffffu32,
        ;
    }
    let wh: u64 = (width as u64) * (height as u64);
    if wh > (u64::MAX / 4) {
        proof {
            assert(4 * ((width as int) * (height as int)) > usize::MAX) by (nonlinear_arith)
                requires
                    (width as int) * (height as int) > 0x3fff_ffff_ffff_ffff,
            ;
        }
        return false;
    }
    (len as u64) == 4 * wh
}

} // verus!
