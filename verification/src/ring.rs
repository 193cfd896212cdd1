//! Bounded FIFO of audio samples, for the producer/consumer crossings
//! between the capture callback, the DSP worker, and playback.
//!
//! The buffer never grows past its capacity: a push onto a full buffer
//! fails immediately and drops the sample, a pop from an empty buffer
//! fails immediately, and neither ever waits. Occupancy is queryable
//! for flow control. The shell that shares a buffer across threads owns
//! the synchronization around these calls.

use vstd::prelude::*;

use std::collections::VecDeque;

verus! {

/// Fixed capacity of the audio rings: two seconds at 48 kHz.
pub const AUDIO_RING_CAPACITY: usize = 96000;

/// A bounded FIFO; the view is the queued samples, oldest first.
pub struct RingBuffer<T> {
    buf: VecDeque<T>,
    cap: usize,
}

impl<T> View for RingBuffer<T> {
    type V = Seq<T>;

    closed spec fn view(&self) -> Seq<T> {
        self.buf@
    }
}

impl<T> RingBuffer<T> {
    /// The fixed bound; the buffer never holds more samples than this.
    pub closed spec fn capacity(&self) -> int {
        self.cap as int
    }

    /// The queue never exceeds its capacity.
    pub closed spec fn wf(&self) -> bool {
        self.buf@.len() <= self.cap
    }

    /// An empty buffer with the given fixed capacity.
    pub fn new(capacity: usize) -> (r: Self)
        ensures
            r.wf(),
            r@ == Seq::<T>::empty(),
            r.capacity() == capacity,
    {
        RingBuffer { buf: VecDeque::with_capacity(capacity), cap: capacity }
    }

    /// An empty buffer sized for the audio pipeline: two seconds of
    /// samples at 48 kHz.
    pub fn new_audio() -> (r: Self)
        ensures
            r.wf(),
            r@ == Seq::<T>::empty(),
            r.capacity() == AUDIO_RING_CAPACITY as int,
    {
        Self::new(AUDIO_RING_CAPACITY)
    }

    /// Append one sample if there is room.
    ///
    /// Returns whether the sample was queued: on a full buffer the push
    /// fails, the buffer is unchanged, and the sample is dropped; it
    /// never waits.
    pub fn try_push(&mut self, x: T) -> (pushed: bool)
        requires
            old(self).wf(),
        ensures
            final(self).wf(),
            final(self).capacity() == old(self).capacity(),
            pushed == (old(self)@.len() < old(self).capacity()),
            pushed ==> final(self)@ == old(self)@.push(x),
            !pushed ==> final(self)@ == old(self)@,
    {
        if self.buf.len() < self.cap {
            self.buf.push_back(x);
            true
        } else {
            false
        }
    }

    /// Remove and return the oldest sample.
    ///
    /// On an empty buffer the pop fails with `None` and never waits.
    pub fn try_pop(&mut self) -> (popped: Option<T>)
        requires
            old(self).wf(),
        ensures
            final(self).wf(),
            final(self).capacity() == old(self).capacity(),
            old(self)@.len() == 0 ==> popped is None && final(self)@ == old(self)@,
            old(self)@.len() > 0 ==> popped == Some(old(self)@[0]) && final(self)@ == old(
                self,
            )@.subrange(1, old(self)@.len() as int),
    {
        self.buf.pop_front()
    }

    /// How many samples are queued.
    pub fn occupied_len(&self) -> (n: usize)
        ensures
            n == self@.len(),
    {
        self.buf.len()
    }

    /// How many more samples fit.
    pub fn free_len(&self) -> (n: usize)
        requires
            self.wf(),
        ensures
            n == self.capacity() - self@.len(),
    {
        self.cap - self.buf.len()
    }

    /// Whether the buffer holds no samples.
    pub fn is_empty(&self) -> (e: bool)
        ensures
            e == (self@.len() == 0),
    {
        self.buf.len() == 0
    }
}

} // verus!
