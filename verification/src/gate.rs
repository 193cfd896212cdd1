//! Transmit gating: the push-to-talk decision, the amplitude gate state
//! machine with hold timer, and the substitution of silence into gated
//! frames.
//!
//! The DSP worker reads the shared transmit flag once per 10 ms frame,
//! so a flag transition shows up in the very next frame and never
//! retroactively changes an earlier one.

use vstd::prelude::*;

verus! {

/// The amplitude gate: `Closed` emits silence; `Open` emits the
/// processed frame and counts down over sub-threshold frames.
#[derive(Clone, Copy, Debug, PartialEq, Eq, Structural)]
pub enum GateState {
    /// No recent signal above the threshold; output is silence.
    Closed,
    /// Signal seen recently; stays open for the held number of
    /// sub-threshold frames.
    Open {
        /// Sub-threshold frames left before closing.
        hold_remaining: u32,
    },
}

/// One gating step: a frame whose peak exceeds the threshold
/// (re)opens with the full hold; a sub-threshold frame counts the hold
/// down, closing at zero.
pub open spec fn spec_gate_step(s: GateState, above_threshold: bool, hold_frames: u32) -> GateState {
    if above_threshold {
        GateState::Open { hold_remaining: hold_frames }
    } else {
        match s {
            GateState::Closed => GateState::Closed,
            GateState::Open { hold_remaining } => {
                if hold_remaining == 0 {
                    GateState::Closed
                } else {
                    GateState::Open { hold_remaining: (hold_remaining - 1) as u32 }
                }
            },
        }
    }
}

/// Whether a gate state lets the frame through.
pub open spec fn spec_gate_open(s: GateState) -> bool {
    s is Open
}

impl GateState {
    /// The initial state: closed.
    pub fn initial() -> (r: GateState)
        ensures
            r == GateState::Closed,
    {
        GateState::Closed
    }

    /// Advance by one frame, exactly as `spec_gate_step` says.
    pub fn step(self, above_threshold: bool, hold_frames: u32) -> (r: GateState)
        ensures
            r == spec_gate_step(self, above_threshold, hold_frames),
    {
        if above_threshold {
            GateState::Open { hold_remaining: hold_frames }
        } else {
            match self {
                GateState::Closed => GateState::Closed,
                GateState::Open { hold_remaining } => {
                    if hold_remaining == 0 {
                        GateState::Closed
                    } else {
                        GateState::Open { hold_remaining: hold_remaining - 1 }
                    }
                },
            }
        }
    }

    /// Whether this state lets frames through.
    pub fn is_open(&self) -> (r: bool)
        ensures
            r == spec_gate_open(*self),
    {
        match self {
            GateState::Closed => false,
            GateState::Open { .. } => true,
        }
    }
}

/// A keyboard event as the push-to-talk hook sees it: a press or
/// release of some key code, or anything else.
#[derive(Clone, Copy, Debug, PartialEq, Eq, Structural)]
pub enum KeyEvent {
    /// A key went down.
    Press {
        /// Platform key code.
        key: u32,
    },
    /// A key came up.
    Release {
        /// Platform key code.
        key: u32,
    },
    /// Any other input event.
    Other,
}

/// The transmit flag after one input event: with push-to-talk disabled
/// transmit is forced on; otherwise a press of the target key turns it
/// on, a release of the target key turns it off, and everything else
/// leaves it alone.
pub open spec fn spec_ptt_next(
    ptt_enabled: bool,
    target_key: u32,
    current: bool,
    ev: KeyEvent,
) -> bool {
    if !ptt_enabled {
        true
    } else {
        match ev {
            KeyEvent::Press { key } => {
                if key == target_key {
                    true
                } else {
                    current
                }
            },
            KeyEvent::Release { key } => {
                if key == target_key {
                    false
                } else {
                    current
                }
            },
            KeyEvent::Other => current,
        }
    }
}

/// The transmit flag after one input event, exactly as `spec_ptt_next`
/// says.
pub fn ptt_next(ptt_enabled: bool, target_key: u32, current: bool, ev: KeyEvent) -> (r: bool)
    ensures
        r == spec_ptt_next(ptt_enabled, target_key, current, ev),
{
    if !ptt_enabled {
        return true;
    }
    match ev {
        KeyEvent::Press { key } => {
            if key == target_key {
                true
            } else {
                current
            }
        },
        KeyEvent::Release { key } => {
            if key == target_key {
                false
            } else {
                current
            }
        },
        KeyEvent::Other => current,
    }
}

/// A rising edge of the transmit flag, which triggers the user
/// indication.
pub fn transmit_edge(was: bool, now: bool) -> (r: bool)
    ensures
        r == (!was && now),
{
    !was && now
}

/// What gating makes of one frame: the frame itself while
/// transmitting, silence otherwise.
pub open spec fn spec_gated<T>(frame: Seq<T>, transmitting: bool, silence: T) -> Seq<T> {
    if transmitting {
        frame
    } else {
        Seq::new(frame.len(), |i: int| silence)
    }
}

/// Apply the push-to-talk gate to one processed frame: hand the frame
/// back while transmitting, an all-silence frame of the same length
/// otherwise.
pub fn gate_frame<T: Copy>(frame: &Vec<T>, transmitting: bool, silence: T) -> (r: Vec<T>)
    ensures
        r@ == spec_gated(frame@, transmitting, silence),
        r@.len() == frame@.len(),
{
    if transmitting {
        let mut out: Vec<T> = Vec::new();
        let mut i: usize = 0;
        while i < frame.len()
            invariant
                i <= frame@.len(),
                out@ == frame@.subrange(0, i as int),
            decreases frame@.len() - i,
        {
            out.push(frame[i]);
            proof {
                assert(out@ =~= frame@.subrange(0, i + 1));
            }
            i = i + 1;
        }
        proof {
            assert(out@ =~= frame@);
        }
        out
    } else {
        let mut out: Vec<T> = Vec::new();
        let mut i: usize = 0;
        while i < frame.len()
            invariant
                i <= frame@.len(),
                out@.len() == i,
                forall|j: int| 0 <= j < i ==> out@[j] == silence,
            decreases frame@.len() - i,
        {
            out.push(silence);
            i = i + 1;
        }
        proof {
            assert(out@ =~= Seq::new(frame@.len(), |i: int| silence));
        }
        out
    }
}

/// Law: gate latency is one frame. The gated output of each DSP period
/// depends only on the transmit flag read in that period, so when the
/// flag holds `before` for the first `k` reads and `after` from read
/// `k` on, every frame before `k` reflects `before` and the frame at
/// `k` (and after) reflects `after`.
pub proof fn lemma_ptt_gate_latency<T>(
    frames: Seq<Seq<T>>,
    reads: Seq<bool>,
    outs: Seq<Seq<T>>,
    silence: T,
    k: int,
    before: bool,
    after: bool,
)
    requires
        frames.len() == reads.len(),
        outs.len() == reads.len(),
        forall|i: int|
            0 <= i < reads.len() ==> #[trigger] outs[i] == spec_gated(frames[i], reads[i], silence),
        0 <= k <= reads.len(),
        forall|i: int| 0 <= i < k ==> #[trigger] reads[i] == before,
        forall|i: int| k <= i < reads.len() ==> #[trigger] reads[i] == after,
    ensures
        forall|i: int|
            0 <= i < k ==> #[trigger] outs[i] == spec_gated(frames[i], before, silence),
        forall|i: int|
            k <= i < reads.len() ==> #[trigger] outs[i] == spec_gated(frames[i], after, silence),
{
}

} // verus!
