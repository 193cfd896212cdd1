//! Core of a real-time conferencing endpoint: microphone capture and
//! cleanup on one side, screen capture and color conversion on the other.
//!
//! The audio pipeline frames samples into fixed 10 ms blocks, gates them
//! by push-to-talk state, and feeds speaker loopback; the video pipeline
//! selects a capture backend, converts BGRA frames to I420 (with optional
//! nearest-neighbor downscaling), and paces delivery to a sink.

use vstd::prelude::*;

pub mod backend;
pub mod convert;
pub mod devices;
pub mod driver;
pub mod errors;
pub mod frames;
pub mod gate;
pub mod pace;
pub mod ring;
pub mod scale;
pub mod settings;
pub mod yuv;

verus! {

/// The platform this build of the core targets.
pub fn platform_info() -> (r: &'static str)
    ensures
        r@ == "Linux"@,
{
    "Linux"
}

/// The capture-backend label chosen for a host on which the GPU
/// framebuffer probe returned `nvfbc_available`.
pub fn backend_label(nvfbc_available: bool) -> (r: &'static str)
    ensures
        nvfbc_available ==> r@ == "nvfbc (NVIDIA GPU, 50+ FPS)"@,
        !nvfbc_available ==> r@ == "xcap (X11/Wayland, ~30 FPS)"@,
{
    if nvfbc_available {
        "nvfbc (NVIDIA GPU, 50+ FPS)"
    } else {
        "xcap (X11/Wayland, ~30 FPS)"
    }
}

/// The capture backend recommended without a GPU framebuffer probe
/// answer: the display-server fallback, which is always available.
///
/// The probe itself needs the vendor's capture driver, which this
/// library does not link; a shell that has probed the driver labels
/// the answer with [`backend_label`] instead.
pub fn recommended_capture_backend() -> (r: &'static str)
    ensures
        r@ == "xcap (X11/Wayland, ~30 FPS)"@,
{
    backend_label(false)
}

} // verus!
