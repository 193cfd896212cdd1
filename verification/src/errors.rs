//! Error kinds shared by the audio and video pipelines.

use vstd::prelude::*;

verus! {

/// Every failure the core can report.
///
/// Fatal kinds (`DeviceNotFound`, `UnsupportedFormat`) abort session
/// creation; the rest are recovered locally by the pipeline that saw them.
#[derive(Clone, Copy, Debug, PartialEq, Eq, Structural)]
pub enum CoreError {
    /// The requested audio input could not be resolved, even after the
    /// fuzzy card-name fallback.
    DeviceNotFound,
    /// The device's native sample format is neither float nor signed 16-bit.
    UnsupportedFormat,
    /// The requested screen-capture backend cannot be initialized.
    BackendUnavailable,
    /// A BGRA input buffer does not hold exactly 4 * width * height bytes.
    BufferSizeMismatch,
    /// A ring buffer was full; the offending sample is dropped.
    Overflow,
    /// An output ring was empty; silence is substituted.
    Underflow,
    /// A frame wait elapsed without a frame.
    Timeout,
    /// A per-frame DSP failure; the frame is dropped.
    ProcessingError,
    /// A backend's stop call failed during teardown.
    ShutdownFailure,
}

} // verus!
