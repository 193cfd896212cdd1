//! Session settings and the shared transmit state.
//!
//! An `AudioSettings` value is an immutable snapshot per session: the
//! DSP engine captures a copy at session start, and changes take effect
//! only through a session restart.

use vstd::prelude::*;

use core::sync::atomic::AtomicBool;

verus! {

/// Key code the default settings gate transmit on (left control).
pub const PTT_KEY_CONTROL_LEFT: u32 = 29;

/// Immutable per-session audio configuration.
pub struct AudioSettings {
    /// Input device identifier; `"default"` selects the host default.
    pub input_device_id: String,
    /// Key code whose press and release toggle transmit.
    pub ptt_key: u32,
    /// When false, transmit is forced on permanently.
    pub ptt_enabled: bool,
    /// Enables the echo canceller in the primary processor.
    pub aec_enabled: bool,
    /// Enables adaptive digital gain control.
    pub agc_enabled: bool,
}

impl Clone for AudioSettings {
    /// An exact copy of the snapshot.
    fn clone(&self) -> (r: Self)
        ensures
            r.input_device_id@ == self.input_device_id@,
            r.ptt_key == self.ptt_key,
            r.ptt_enabled == self.ptt_enabled,
            r.aec_enabled == self.aec_enabled,
            r.agc_enabled == self.agc_enabled,
    {
        AudioSettings {
            input_device_id: self.input_device_id.clone(),
            ptt_key: self.ptt_key,
            ptt_enabled: self.ptt_enabled,
            aec_enabled: self.aec_enabled,
            agc_enabled: self.agc_enabled,
        }
    }
}

impl Default for AudioSettings {
    /// The stock session: host default input, push-to-talk off (so
    /// transmit is forced on), echo cancellation and gain control on.
    fn default() -> (r: Self)
        ensures
            r.input_device_id@ == "default"@,
            r.ptt_key == PTT_KEY_CONTROL_LEFT,
            !r.ptt_enabled,
            r.aec_enabled,
            r.agc_enabled,
    {
        AudioSettings {
            input_device_id: String::from_str("default"),
            ptt_key: PTT_KEY_CONTROL_LEFT,
            ptt_enabled: false,
            aec_enabled: true,
            agc_enabled: true,
        }
    }
}

/// Capture settings for low-power hosts: 720p at 30 frames per second.
pub struct LowPowerSettings {
    /// Downscale target width in pixels.
    pub target_width: u32,
    /// Downscale target height in pixels.
    pub target_height: u32,
    /// Capture rate in frames per second.
    pub target_fps: u32,
}

impl Default for LowPowerSettings {
    /// The low-power profile: 1280 by 720 at 30 frames per second.
    fn default() -> (r: Self)
        ensures
            r.target_width == 1280,
            r.target_height == 720,
            r.target_fps == 30,
    {
        LowPowerSettings { target_width: 1280, target_height: 720, target_fps: 30 }
    }
}

/// State shared between the push-to-talk hook (writer) and the DSP
/// worker (reader). The flag is read once per 10 ms frame with relaxed
/// ordering; nothing is promised about what a load observes, so every
/// frame decision is verified for both values.
pub struct GlobalAudioState {
    /// Whether gated frames pass through; false substitutes silence.
    pub is_transmitting: AtomicBool,
}

impl GlobalAudioState {
    /// Fresh shared state with the given initial transmit flag.
    pub fn new(initial: bool) -> GlobalAudioState {
        GlobalAudioState { is_transmitting: AtomicBool::new(initial) }
    }
}

} // verus!
