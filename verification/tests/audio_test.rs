use vong::audio::{AudioConfig, AudioError};
use vong::ui::ResampleConfig;
use vong::utterance::{PreRollBuffer, UtteranceBuilder};
use vong::vad::{VadConfig, VadFsm, VAD_FRAME_MS, VAD_FRAME_SAMPLES};

#[test]
fn utterance_builder_tracks_duration() {
    let mut b = UtteranceBuilder::new(0);
    b.append_slice(&vec![0i16; 16_000]);
    assert_eq!(b.duration_ms(), 1000);
    assert_eq!(b.sample_count(), 16_000);
}

#[test]
fn utterance_build_assigns_unique_ids() {
    let u1 = UtteranceBuilder::new(0).build();
    let u2 = UtteranceBuilder::new(0).build();
    assert_ne!(u1.id, u2.id);
}

#[test]
fn preroll_buffer_evicts_oldest() {
    let mut p = PreRollBuffer::new(4);
    p.push(&[1, 2, 3]);
    p.push(&[4, 5]);
    assert_eq!(p.len(), 4);
    let v = p.drain_to_vec();
    assert_eq!(v, vec![2, 3, 4, 5]);
}

#[test]
fn preroll_from_ms() {
    let p = PreRollBuffer::from_ms(200);
    assert_eq!(p.capacity(), 3200);
}

#[test]
fn preroll_drain_empties() {
    let mut p = PreRollBuffer::new(8);
    p.push(&[1, 2, 3]);
    let _ = p.drain_to_vec();
    assert!(p.is_empty());
}

#[test]
fn frame_size_matches_earshot_spec() {
    assert_eq!(VAD_FRAME_SAMPLES, 256);
    assert_eq!(VAD_FRAME_MS, 16);
}

#[test]
fn config_default_is_sane() {
    let c = ResampleConfig::default();
    assert_eq!(c.source_rate, 48_000);
    assert_eq!(c.source_channels, 2);
    assert_eq!(c.read_chunk_size, 2048);
}

#[test]
fn fsm_construction() {
    let fsm = VadFsm::new(VadConfig::default());
    assert_eq!(fsm.seq(), 0);
    assert_eq!(fsm.hangover_frames_max(), 13);
}

/// The recorder's voice threshold on the detector's score.
const VOICE_THRESHOLD: f32 = 0.65;

/// One voiced flag per whole frame, as the recorder scores them.
fn detect_voiced(chunk: &[i16]) -> Vec<bool> {
    let mut detector = earshot::Detector::const_default();
    chunk
        .chunks_exact(VAD_FRAME_SAMPLES)
        .map(|frame| detector.predict_i16(frame) >= VOICE_THRESHOLD)
        .collect()
}

#[test]
fn fsm_silence_stays_idle() {
    let mut fsm = VadFsm::new(VadConfig::default());
    let silence = vec![0i16; VAD_FRAME_SAMPLES * 10];
    let voiced = detect_voiced(&silence);
    let out = fsm.process_chunk(&silence, &voiced);
    assert!(out.is_empty());
}

#[test]
fn fsm_processes_chunks_without_panic() {
    let mut fsm = VadFsm::new(VadConfig::default());
    let mut samples = Vec::with_capacity(VAD_FRAME_SAMPLES * 5);
    for i in 0..VAD_FRAME_SAMPLES * 5 {
        samples.push((i as i16).wrapping_mul(127));
    }
    let voiced = detect_voiced(&samples);
    let _ = fsm.process_chunk(&samples, &voiced);
}

#[test]
fn vad_onset_then_hangover_packs_one_final() {
    let mut fsm = VadFsm::new(VadConfig::default());
    // 2 silent frames fill the pre-roll, 20 voiced frames, then 13 silent
    // frames reach the hangover limit.
    let mut out = Vec::new();
    out.extend(fsm.step(&[1i16; 256], false));
    out.extend(fsm.step(&[2i16; 256], false));
    for _ in 0..20 {
        out.extend(fsm.step(&[3i16; 256], true));
    }
    assert!(out.is_empty());
    for _ in 0..13 {
        out.extend(fsm.step(&[0i16; 256], false));
    }
    assert_eq!(out.len(), 1);
    let u = &out[0];
    assert!(!u.is_partial);
    assert_eq!(u.seq, 0);
    // pre-roll (2 frames) + 20 voiced + 13 hangover frames
    assert_eq!(u.audio_pcm16_mono_16k.len(), 35 * 256);
    assert_eq!(u.audio_pcm16_mono_16k[0], 1);
    assert_eq!(u.duration_ms, 35 * 16);
    assert_eq!(fsm.seq(), 1);
}

#[test]
fn vad_short_blip_is_dropped() {
    let mut fsm = VadFsm::new(VadConfig::default());
    let mut out = Vec::new();
    out.extend(fsm.step(&[5i16; 256], true));
    for _ in 0..13 {
        out.extend(fsm.step(&[0i16; 256], false));
    }
    // 14 frames = 224 ms is not below the 200 ms minimum: kept
    assert_eq!(out.len(), 1);
    let mut fsm = VadFsm::new(VadConfig { hangover_ms: 16, ..VadConfig::default() });
    let mut out = Vec::new();
    out.extend(fsm.step(&[5i16; 256], true));
    out.extend(fsm.step(&[0i16; 256], false));
    // 2 frames = 32 ms: dropped
    assert!(out.is_empty());
}

#[test]
fn vad_emits_partials_and_force_packs() {
    let cfg = VadConfig { partial_emit_ms: 32, max_duration_ms: 80, min_duration_ms: 0, ..VadConfig::default() };
    let mut fsm = VadFsm::new(cfg);
    let mut out = Vec::new();
    for _ in 0..5 {
        out.extend(fsm.step(&[7i16; 256], true));
    }
    // partials after frames 3 and 5 (2 frames each since onset), and a
    // final once 80 ms are reached at frame 5
    let partials = out.iter().filter(|u| u.is_partial).count();
    let finals = out.iter().filter(|u| !u.is_partial).count();
    assert_eq!(partials, 2);
    assert_eq!(finals, 1);
    assert!(out.iter().all(|u| u.seq == 0));
}

#[test]
fn vad_reset_drops_utterance() {
    let mut fsm = VadFsm::new(VadConfig::default());
    let _ = fsm.step(&[9i16; 256], true);
    fsm.reset();
    let mut out = Vec::new();
    for _ in 0..20 {
        out.extend(fsm.step(&[0i16; 256], false));
    }
    assert!(out.is_empty());
}

#[test]
fn audio_error_messages() {
    assert_eq!(AudioError::NoInputDevice.message(), "no input audio device available on host");
    assert_eq!(
        AudioError::UnsupportedConfig { device: "USB Mic".into(), requested_hz: 48_000 }.message(),
        "stream configuration unsupported: requested 48000Hz on device 'USB Mic'"
    );
    assert_eq!(AudioError::StreamBuild("busy".into()).message(), "stream build failed: busy");
    assert_eq!(AudioError::ConsumerDropped.message(), "downstream consumer dropped");
}

#[test]
fn audio_config_holds_negotiated_values() {
    let c = AudioConfig { sample_rate: 48_000, channels: 2, buffer_size: 480 };
    let d = c;
    assert_eq!(c, d);
    assert_eq!((d.sample_rate, d.channels, d.buffer_size), (48_000, 2, 480));
}

#[test]
fn preroll_of_capacity_zero_keeps_nothing() {
    let mut p = PreRollBuffer::new(0);
    p.push(&[1, 2, 3]);
    assert_eq!(p.len(), 0);
    assert!(p.drain_to_vec().is_empty());
}

#[test]
fn vad_run_finals_are_bounded_and_numbered_in_order() {
    let cfg = VadConfig::default();
    let mut fsm = VadFsm::new(cfg);
    let mut all = Vec::new();
    for round in 0..3 {
        let frames = 700 + round * 10;
        let speech = vec![1000i16; VAD_FRAME_SAMPLES * frames];
        all.extend(fsm.process_chunk(&speech, &vec![true; frames]));
        let quiet = vec![0i16; VAD_FRAME_SAMPLES * 20];
        all.extend(fsm.process_chunk(&quiet, &vec![false; 20]));
    }
    let finals: Vec<_> = all.iter().filter(|u| !u.is_partial).collect();
    assert!(finals.len() >= 3);
    for u in &finals {
        assert!(u.duration_ms >= cfg.min_duration_ms);
        assert!(u.duration_ms < cfg.max_duration_ms + VAD_FRAME_MS);
    }
    for w in finals.windows(2) {
        assert!(w[0].seq < w[1].seq);
    }
    for (i, u) in all.iter().enumerate() {
        if !u.is_partial {
            assert!(all[i + 1..].iter().all(|later| later.seq > u.seq));
        }
    }
}

#[test]
fn fsm_keeps_its_configuration() {
    let cfg = VadConfig { hangover_ms: 300, pre_roll_ms: 100, min_duration_ms: 250, max_duration_ms: 6000, partial_emit_ms: 0 };
    let mut fsm = VadFsm::new(cfg);
    let _ = fsm.process_chunk(&vec![0i16; VAD_FRAME_SAMPLES * 3], &[true, false, false]);
    assert_eq!(fsm.config(), cfg);
}
