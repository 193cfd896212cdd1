use voip_core::devices::{get_professional_device_list, resolve_device};
use voip_core::driver::{check_format, downmix_first_channel, fan_out, SampleFormat};
use voip_core::errors::CoreError;
use voip_core::frames::{FrameAccumulator, DSP_FRAME_SAMPLES};
use voip_core::gate::{gate_frame, ptt_next, transmit_edge, GateState, KeyEvent};
use voip_core::ring::{RingBuffer, AUDIO_RING_CAPACITY};
use voip_core::settings::{AudioSettings, GlobalAudioState, LowPowerSettings, PTT_KEY_CONTROL_LEFT};

#[test]
fn test_default_settings() {
    let settings = LowPowerSettings::default();
    assert_eq!(settings.target_width, 1280);
    assert_eq!(settings.target_height, 720);
    assert_eq!(settings.target_fps, 30);
}

#[test]
fn test_audio_settings_default() {
    let settings = AudioSettings::default();
    assert_eq!(settings.input_device_id, "default");
    assert_eq!(settings.ptt_key, PTT_KEY_CONTROL_LEFT);
    assert!(!settings.ptt_enabled);
    assert!(settings.aec_enabled);
    assert!(settings.agc_enabled);
}

#[test]
fn test_global_state_flag() {
    let state = GlobalAudioState::new(true);
    assert!(state
        .is_transmitting
        .load(std::sync::atomic::Ordering::Relaxed));
    state
        .is_transmitting
        .store(false, std::sync::atomic::Ordering::Relaxed);
    assert!(!state
        .is_transmitting
        .load(std::sync::atomic::Ordering::Relaxed));
}

#[test]
fn test_ring_fifo_order() {
    let mut ring: RingBuffer<i16> = RingBuffer::new(4);
    assert!(ring.try_push(1));
    assert!(ring.try_push(2));
    assert!(ring.try_push(3));
    assert_eq!(ring.occupied_len(), 3);
    assert_eq!(ring.try_pop(), Some(1));
    assert_eq!(ring.try_pop(), Some(2));
    assert_eq!(ring.try_pop(), Some(3));
    assert_eq!(ring.try_pop(), None);
}

#[test]
fn test_ring_full_push_fails() {
    let mut ring: RingBuffer<i16> = RingBuffer::new(2);
    assert!(ring.try_push(10));
    assert!(ring.try_push(20));
    // The ring is full: the push fails at once and the sample drops.
    assert!(!ring.try_push(30));
    assert_eq!(ring.occupied_len(), 2);
    assert_eq!(ring.try_pop(), Some(10));
}

#[test]
fn test_ring_empty_pop_fails() {
    let mut ring: RingBuffer<i16> = RingBuffer::new(2);
    assert_eq!(ring.try_pop(), None);
    assert!(ring.is_empty());
}

#[test]
fn test_ring_audio_capacity() {
    let ring: RingBuffer<i16> = RingBuffer::new_audio();
    assert_eq!(AUDIO_RING_CAPACITY, 96_000);
    assert_eq!(ring.free_len(), 96_000);
}

#[test]
fn test_frame_accumulator_framing() {
    // 1000 samples yield two whole 480-sample frames and leave 40 pending.
    let mut acc: FrameAccumulator<f32> = FrameAccumulator::new();
    let chunk: Vec<f32> = (0..1000).map(|i| i as f32).collect();
    acc.push_samples(&chunk);
    assert_eq!(acc.pending(), 1000);
    assert!(acc.has_frame());

    let first = acc.pop_frame().unwrap();
    assert_eq!(first.len(), DSP_FRAME_SAMPLES);
    assert_eq!(first[0], 0.0);
    assert_eq!(first[479], 479.0);

    let second = acc.pop_frame().unwrap();
    assert_eq!(second.len(), DSP_FRAME_SAMPLES);
    assert_eq!(second[0], 480.0);

    assert!(acc.pop_frame().is_none());
    assert_eq!(acc.pending(), 40);
}

#[test]
fn test_gate_state_machine() {
    let s0 = GateState::initial();
    assert!(!s0.is_open());

    // A loud frame opens with the full hold.
    let s1 = s0.step(true, 2);
    assert_eq!(s1, GateState::Open { hold_remaining: 2 });
    assert!(s1.is_open());

    // Quiet frames count the hold down, then close.
    let s2 = s1.step(false, 2);
    assert_eq!(s2, GateState::Open { hold_remaining: 1 });
    let s3 = s2.step(false, 2);
    assert_eq!(s3, GateState::Open { hold_remaining: 0 });
    let s4 = s3.step(false, 2);
    assert_eq!(s4, GateState::Closed);

    // A loud frame reopens at any point.
    let s5 = s2.step(true, 2);
    assert_eq!(s5, GateState::Open { hold_remaining: 2 });
}

#[test]
fn test_ptt_transitions() {
    let key = 29u32;
    // Disabled push-to-talk forces transmit on.
    assert!(ptt_next(false, key, false, KeyEvent::Other));
    assert!(ptt_next(false, key, false, KeyEvent::Release { key }));

    // Press of the target key turns transmit on; release turns it off.
    assert!(ptt_next(true, key, false, KeyEvent::Press { key }));
    assert!(!ptt_next(true, key, true, KeyEvent::Release { key }));

    // Other keys leave the state alone.
    assert!(!ptt_next(true, key, false, KeyEvent::Press { key: 57 }));
    assert!(ptt_next(true, key, true, KeyEvent::Release { key: 57 }));
    assert!(ptt_next(true, key, true, KeyEvent::Other));

    // Only the rising edge indicates.
    assert!(transmit_edge(false, true));
    assert!(!transmit_edge(true, true));
    assert!(!transmit_edge(true, false));
}

#[test]
fn test_gate_frame_substitution() {
    let frame: Vec<f32> = vec![0.5, -0.25, 0.125];
    let open = gate_frame(&frame, true, 0.0);
    assert_eq!(open, frame);
    let closed = gate_frame(&frame, false, 0.0);
    assert_eq!(closed, vec![0.0, 0.0, 0.0]);
    assert_eq!(closed.len(), frame.len());
}

#[test]
fn test_gate_latency_one_frame() {
    // With push-to-talk enabled and the key up, every emitted frame is
    // silence; the first frame after the press carries signal.
    let key = 29u32;
    let tone: Vec<f32> = vec![0.25; 480];
    let mut transmitting = false;

    let mut outputs: Vec<Vec<f32>> = Vec::new();
    for period in 0..6 {
        if period == 3 {
            transmitting = ptt_next(true, key, transmitting, KeyEvent::Press { key });
        }
        outputs.push(gate_frame(&tone, transmitting, 0.0));
    }
    for out in &outputs[..3] {
        assert!(out.iter().all(|s| *s == 0.0));
    }
    for out in &outputs[3..] {
        assert_eq!(out, &tone);
    }
}

#[test]
fn test_device_list_filtering() {
    let ids: Vec<String> = vec![
        "hw:CARD=PCH,DEV=0".to_string(),
        "dmix:CARD=PCH".to_string(),
        "sysdefault:CARD=PCH".to_string(),
        "plughw:CARD=USB,DEV=0".to_string(),
        "null".to_string(),
        "surround51:CARD=PCH".to_string(),
        "default".to_string(),
    ];
    let list = get_professional_device_list(&ids);
    assert_eq!(list.len(), 3);
    assert_eq!(list[0].id, "default");
    assert_eq!(list[0].display_name, "Sistem Varsayılanı (Pulse/Pipewire)");
    assert_eq!(list[1].id, "sysdefault:CARD=PCH");
    assert_eq!(list[1].display_name, "PCH (System Default)");
    assert_eq!(list[2].id, "plughw:CARD=USB,DEV=0");
    assert_eq!(list[2].display_name, "USB (Direct/Plug)");
}

#[test]
fn test_device_list_dedup_and_order() {
    let ids: Vec<String> = vec![
        "plughw:CARD=Zulu,DEV=0".to_string(),
        "plughw:CARD=Alpha,DEV=0".to_string(),
        "plughw:CARD=Alpha,DEV=1".to_string(),
    ];
    let list = get_professional_device_list(&ids);
    // The two Alpha ids share one label; order is case-insensitive by label.
    assert_eq!(list.len(), 3);
    assert_eq!(list[1].display_name, "Alpha (Direct/Plug)");
    assert_eq!(list[1].id, "plughw:CARD=Alpha,DEV=0");
    assert_eq!(list[2].display_name, "Zulu (Direct/Plug)");
}

#[test]
fn test_device_list_stable() {
    // Repeated enumeration of an unchanged host yields identical lists.
    let ids: Vec<String> = vec![
        "plughw:CARD=B,DEV=0".to_string(),
        "sysdefault:CARD=A".to_string(),
    ];
    let first = get_professional_device_list(&ids);
    let second = get_professional_device_list(&ids);
    assert_eq!(first.len(), second.len());
    for (a, b) in first.iter().zip(second.iter()) {
        assert_eq!(a.id, b.id);
        assert_eq!(a.display_name, b.display_name);
    }
}

#[test]
fn test_resolve_device_exact() {
    let names: Vec<String> = vec![
        "sysdefault:CARD=PCH".to_string(),
        "plughw:CARD=USB,DEV=0".to_string(),
    ];
    assert_eq!(resolve_device(&names, "plughw:CARD=USB,DEV=0"), Ok(1));
}

#[test]
fn test_resolve_device_fuzzy() {
    let names: Vec<String> = vec![
        "front:CARD=PCH,DEV=0".to_string(),
        "sysdefault:CARD=USB".to_string(),
    ];
    // No exact match; the embedded card name finds the first carrier.
    assert_eq!(resolve_device(&names, "plughw:CARD=USB,DEV=0"), Ok(1));
}

#[test]
fn test_resolve_device_not_found() {
    let names: Vec<String> = vec!["sysdefault:CARD=PCH".to_string()];
    assert_eq!(
        resolve_device(&names, "plughw:CARD=USB,DEV=0"),
        Err(CoreError::DeviceNotFound)
    );
    assert_eq!(
        resolve_device(&names, "nonsense"),
        Err(CoreError::DeviceNotFound)
    );
}

#[test]
fn test_downmix_first_channel() {
    let stereo: Vec<f32> = vec![1.0, -1.0, 2.0, -2.0, 3.0, -3.0];
    assert_eq!(downmix_first_channel(&stereo, 2), vec![1.0, 2.0, 3.0]);
    // A trailing partial frame still contributes its first sample.
    let ragged: Vec<f32> = vec![1.0, -1.0, 2.0];
    assert_eq!(downmix_first_channel(&ragged, 2), vec![1.0, 2.0]);
    let mono: Vec<f32> = vec![5.0, 6.0];
    assert_eq!(downmix_first_channel(&mono, 1), vec![5.0, 6.0]);
}

#[test]
fn test_fan_out() {
    assert_eq!(fan_out(0.25f32, 3), vec![0.25, 0.25, 0.25]);
    assert_eq!(fan_out(7i16, 1), vec![7]);
    assert_eq!(fan_out(7i16, 0), Vec::<i16>::new());
}

#[test]
fn test_check_format() {
    assert!(check_format(SampleFormat::Float32).is_ok());
    assert!(check_format(SampleFormat::Int16).is_ok());
    assert_eq!(
        check_format(SampleFormat::Other),
        Err(CoreError::UnsupportedFormat)
    );
}
