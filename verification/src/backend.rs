//! Screen-capture backend probing, selection, and capture policy.
//!
//! On session start the backends are probed in a fixed order — GPU
//! framebuffer first, then the desktop portal, then the generic
//! display-server fallback — and the first available one wins. The
//! selected backend's rate and resolution come from the capture policy:
//! native size at 60 frames per second, or 720p at 30 under the
//! low-power profile.

use vstd::prelude::*;

verus! {

/// Capture backend selection for the generic service.
#[derive(Clone, Copy, Debug, PartialEq, Eq, Structural)]
pub enum CaptureBackend {
    /// Display-server screenshot capture; the universal fallback.
    Xcap,
    /// Desktop-portal negotiated capture with shared buffers.
    PipeWire,
}

impl Default for CaptureBackend {
    /// The fallback backend, always available.
    fn default() -> (r: Self)
        ensures
            r == CaptureBackend::Xcap,
    {
        CaptureBackend::Xcap
    }
}

/// The three concrete capture paths, in probe order.
#[derive(Clone, Copy, Debug, PartialEq, Eq, Structural)]
pub enum BackendKind {
    /// Direct GPU framebuffer capture.
    GpuFramebuffer,
    /// Desktop-portal negotiated capture.
    Portal,
    /// Generic display-server capture; always available.
    Generic,
}

/// Pick the first available backend in probe order: GPU framebuffer,
/// then portal, then generic.
pub fn select_backend(gpu_available: bool, portal_available: bool) -> (r: BackendKind)
    ensures
        gpu_available ==> r == BackendKind::GpuFramebuffer,
        !gpu_available && portal_available ==> r == BackendKind::Portal,
        !gpu_available && !portal_available ==> r == BackendKind::Generic,
{
    if gpu_available {
        BackendKind::GpuFramebuffer
    } else if portal_available {
        BackendKind::Portal
    } else {
        BackendKind::Generic
    }
}

/// The target rate and resolution for a capture session: native size at
/// 60 frames per second by default; the low-power profile forces 30
/// frames per second at 1280 by 720 regardless of native size.
pub fn capture_policy(low_power: bool, native_width: u32, native_height: u32) -> (r: (u32, u32, u32))
    ensures
        low_power ==> r == (30u32, 1280u32, 720u32),
        !low_power ==> r == (60u32, native_width, native_height),
{
    if low_power {
        (30, 1280, 720)
    } else {
        (60, native_width, native_height)
    }
}

} // verus!
