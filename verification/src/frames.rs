//! Framing of a resampled audio stream into fixed DSP blocks.
//!
//! All denoise, echo-cancel, gate, and gain operations run over frames
//! of exactly 480 samples, 10 ms at 48 kHz, regardless of the device
//! rate. Incoming chunks of any size accumulate in a scratch buffer;
//! whole frames are taken off its front.

use vstd::prelude::*;

use std::collections::VecDeque;

verus! {

/// Samples per DSP frame: 10 ms at 48 kHz.
pub const DSP_FRAME_SAMPLES: usize = 480;

/// Accumulates resampled samples and hands out exact 480-sample frames;
/// the view is the samples still pending, oldest first.
pub struct FrameAccumulator<T> {
    scratch: VecDeque<T>,
}

impl<T> View for FrameAccumulator<T> {
    type V = Seq<T>;

    closed spec fn view(&self) -> Seq<T> {
        self.scratch@
    }
}

impl<T: Copy> FrameAccumulator<T> {
    /// An accumulator with nothing pending.
    pub fn new() -> (r: Self)
        ensures
            r@ == Seq::<T>::empty(),
    {
        FrameAccumulator { scratch: VecDeque::new() }
    }

    /// How many samples are pending.
    pub fn pending(&self) -> (n: usize)
        ensures
            n == self@.len(),
    {
        self.scratch.len()
    }

    /// Whether a whole frame can be taken.
    pub fn has_frame(&self) -> (b: bool)
        ensures
            b == (self@.len() >= DSP_FRAME_SAMPLES),
    {
        self.scratch.len() >= DSP_FRAME_SAMPLES
    }

    /// Append a chunk of resampled samples.
    pub fn push_samples(&mut self, chunk: &Vec<T>) -> (u: ())
        requires
            old(self)@.len() + chunk@.len() <= usize::MAX,
        ensures
            final(self)@ == old(self)@ + chunk@,
    {
        let mut i: usize = 0;
        while i < chunk.len()
            invariant
                i <= chunk@.len(),
                self@ == old(self)@ + chunk@.subrange(0, i as int),
                old(self)@.len() + chunk@.len() <= usize::MAX,
            decreases chunk@.len() - i,
        {
            self.scratch.push_back(chunk[i]);
            proof {
                assert(self@ =~= old(self)@ + chunk@.subrange(0, i + 1));
            }
            i = i + 1;
        }
        proof {
            assert(self@ =~= old(self)@ + chunk@);
        }
    }

    /// Take one whole frame off the front, if enough samples are
    /// pending: the frame is exactly the oldest 480 samples, and they
    /// leave the scratch buffer.
    pub fn pop_frame(&mut self) -> (r: Option<Vec<T>>)
        ensures
            old(self)@.len() < DSP_FRAME_SAMPLES ==> r is None && final(self)@ == old(self)@,
            old(self)@.len() >= DSP_FRAME_SAMPLES ==> {
                &&& r is Some
                &&& r->Some_0@ == old(self)@.subrange(0, DSP_FRAME_SAMPLES as int)
                &&& final(self)@ == old(self)@.subrange(
                    DSP_FRAME_SAMPLES as int,
                    old(self)@.len() as int,
                )
            },
    {
        if self.scratch.len() < DSP_FRAME_SAMPLES {
            return None;
        }
        let mut frame: Vec<T> = Vec::new();
        let mut i: usize = 0;
        while i < DSP_FRAME_SAMPLES
            invariant
                i <= DSP_FRAME_SAMPLES,
                old(self)@.len() >= DSP_FRAME_SAMPLES,
                frame@ == old(self)@.subrange(0, i as int),
                self@ == old(self)@.subrange(i as int, old(self)@.len() as int),
            decreases DSP_FRAME_SAMPLES - i,
        {
            let s = self.scratch.pop_front();
            match s {
                Some(x) => {
                    frame.push(x);
                },
                None => {
                    proof {
                        assert(false);
                    }
                },
            }
            proof {
                assert(frame@ =~= old(self)@.subrange(0, i + 1));
                assert(self@ =~= old(self)@.subrange(i + 1, old(self)@.len() as int));
            }
            i = i + 1;
        }
        Some(frame)
    }
}

/// The whole frames a stream of samples breaks into: the first 480
/// samples, then the frames of the rest; a tail shorter than one frame
/// stays pending.
pub open spec fn frames_of<T>(s: Seq<T>) -> Seq<Seq<T>>
    decreases s.len(),
{
    if s.len() < 480 {
        Seq::empty()
    } else {
        seq![s.subrange(0, 480)] + frames_of(s.subrange(480, s.len() as int))
    }
}

/// Law: a stream of `n` samples at 48 kHz yields exactly `n / 480`
/// whole DSP frames (one per 10 ms), every frame holds exactly 480
/// samples, and frame `i` is precisely samples `480*i .. 480*i + 480`
/// of the stream, in order.
pub proof fn lemma_frame_invariance<T>(s: Seq<T>)
    ensures
        frames_of(s).len() == s.len() / 480,
        forall|i: int| 0 <= i < frames_of(s).len() ==> (#[trigger] frames_of(s)[i]).len() == 480,
        forall|i: int|
            0 <= i < frames_of(s).len() ==> #[trigger] frames_of(s)[i] == s.subrange(
                480 * i,
                480 * i + 480,
            ),
    decreases s.len(),
{
    if s.len() < 480 {
        assert(s.len() as int / 480 == 0) by {
            vstd::arithmetic::div_mod::lemma_basic_div(s.len() as int, 480);
        }
    } else {
        let rest = s.subrange(480, s.len() as int);
        lemma_frame_invariance(rest);
        assert(rest.len() as int / 480 + 1 == (rest.len() + 1 * 480) / 480) by {
            vstd::arithmetic::div_mod::lemma_hoist_over_denominator(rest.len() as int, 1, 480);
        }
        assert forall|i: int| 0 <= i < frames_of(s).len() implies #[trigger] frames_of(s)[i]
            == s.subrange(480 * i, 480 * i + 480) by {
            if i > 0 {
                assert(frames_of(s)[i] == frames_of(rest)[i - 1]);
                assert(frames_of(rest)[i - 1] == rest.subrange(480 * (i - 1), 480 * (i - 1) + 480));
                assert(rest.subrange(480 * (i - 1), 480 * (i - 1) + 480) =~= s.subrange(
                    480 * i,
                    480 * i + 480,
                ));
            }
        }
    }
}

} // verus!
