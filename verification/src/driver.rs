//! Sample-level helpers of the capture and playback drivers: native
//! format acceptance, left downmix of interleaved blocks, and
//! mono-to-N fan-out.
//!
//! The drivers themselves are callbacks owned by the host audio
//! subsystem; what they do per block is defined here, over plain
//! samples.

use vstd::prelude::*;

use crate::errors::CoreError;

verus! {

/// The native sample formats the capture driver distinguishes.
#[derive(Clone, Copy, Debug, PartialEq, Eq, Structural)]
pub enum SampleFormat {
    /// 32-bit floating point, taken as is.
    Float32,
    /// Signed 16-bit integers, scaled to floats by the driver shell.
    Int16,
    /// Anything else; rejected.
    Other,
}

/// Accept a device's native format: floats and signed 16-bit pass,
/// anything else fails with `UnsupportedFormat`.
pub fn check_format(format: SampleFormat) -> (r: Result<(), CoreError>)
    ensures
        format != SampleFormat::Other <==> r is Ok,
        format == SampleFormat::Other ==> r == Result::<(), CoreError>::Err(
            CoreError::UnsupportedFormat,
        ),
{
    match format {
        SampleFormat::Float32 => Ok(()),
        SampleFormat::Int16 => Ok(()),
        SampleFormat::Other => Err(CoreError::UnsupportedFormat),
    }
}

/// Select the first channel of each interleaved frame of a captured
/// block (left downmix). A trailing partial frame still contributes
/// its first sample, as chunked iteration does.
pub fn downmix_first_channel<T: Copy>(data: &Vec<T>, channels: usize) -> (r: Vec<T>)
    requires
        channels >= 1,
    ensures
        data@.len() == 0 ==> r@.len() == 0,
        data@.len() > 0 ==> r@.len() == (data@.len() - 1) / (channels as int) + 1,
        forall|i: int| 0 <= i < r@.len() ==> r@[i] == data@[i * (channels as int)],
{
    let mut out: Vec<T> = Vec::new();
    if data.len() == 0 {
        return out;
    }
    proof {
        vstd::arithmetic::div_mod::lemma_div_nonincreasing(data@.len() - 1, channels as int);
        vstd::arithmetic::div_mod::lemma_div_pos_is_pos(data@.len() - 1, channels as int);
    }
    let count: usize = (data.len() - 1) / channels + 1;
    proof {
        vstd::arithmetic::div_mod::lemma_fundamental_div_mod(data@.len() - 1, channels as int);
        assert((count - 1) * (channels as int) <= data@.len() - 1) by (nonlinear_arith)
            requires
                channels >= 1,
                data@.len() >= 1,
                data@.len() - 1 == (channels as int) * (count - 1) + (data@.len() - 1) % (
                channels as int),
                (data@.len() - 1) % (channels as int) >= 0,
        ;
    }
    let dlen: usize = data.len();
    let mut k: usize = 0;
    while k < count
        invariant
            channels >= 1,
            dlen == data@.len(),
            data@.len() > 0,
            count == (data@.len() - 1) / (channels as int) + 1,
            (count - 1) * (channels as int) <= data@.len() - 1,
            k <= count,
            out@.len() == k,
            forall|j: int| 0 <= j < k ==> out@[j] == data@[j * (channels as int)],
        decreases count - k,
    {
        proof {
            assert((k as int) * (channels as int) <= (count - 1) * (channels as int))
                by (nonlinear_arith)
                requires
                    0 <= k as int <= count - 1,
                    channels >= 1,
            ;
        }
        out.push(data[k * channels]);
        k = k + 1;
    }
    out
}

/// Replicate one output sample across every output channel of a frame
/// (mono-to-N fan-out).
pub fn fan_out<T: Copy>(sample: T, channels: usize) -> (r: Vec<T>)
    ensures
        r@.len() == channels,
        forall|i: int| 0 <= i < channels ==> r@[i] == sample,
{
    let mut out: Vec<T> = Vec::new();
    let mut i: usize = 0;
    while i < channels
        invariant
            i <= channels,
            out@.len() == i,
            forall|j: int| 0 <= j < i ==> out@[j] == sample,
        decreases channels - i,
    {
        out.push(sample);
        i = i + 1;
    }
    out
}

} // verus!
