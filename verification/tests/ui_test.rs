use vong::ui::{swap_begin, swap_next, swap_success_toast, SwapInput, SwapState};
use vong::stt::TranscriptEvent;
use vong::ui::{apply_transcript_event, LiveStatus};
use vong::storage::SearchHit;
use vong::toast::ToastSeverity;
use vong::ui::{
    clamp_vad_timing, format_device_label, format_ms_as_timestamp, format_model_size,
    format_search_hit_line, format_search_results, format_wall_clock, into_vad_config,
    parse_provider_label, plan_swap, provider_label, provider_mode_from_file, provider_vi_name,
    sanitize_json, short_provider_label, upsert_line_for_seq, AudioSource, DeviceInfo,
    DeviceKind, DialogState, HotswapError, ProviderMode, SwapPlan, TranscriptStreamLine,
};
use vong::ui::{is_model_file_name, shows_as_latest};

#[test]
fn audio_source_str_stable() {
    assert_eq!(AudioSource::Microphone.as_str(), "mic");
    assert_eq!(AudioSource::LoopbackMacOs.as_str(), "loopback");
    assert_eq!(AudioSource::Mixed.as_str(), "mixed");
}

#[test]
fn provider_ids_and_labels_roundtrip() {
    for m in [ProviderMode::LocalWhisper, ProviderMode::SonioxCloud, ProviderMode::OpenAIRealtime] {
        assert_eq!(ProviderMode::from_id(m.id()), Some(m));
        assert_eq!(parse_provider_label(provider_label(m)), Some(m));
    }
    assert_eq!(ProviderMode::from_id("whisper"), None);
    assert_eq!(provider_mode_from_file(Some(" soniox\n")), ProviderMode::SonioxCloud);
    assert_eq!(provider_mode_from_file(Some("???")), ProviderMode::LocalWhisper);
    assert_eq!(provider_mode_from_file(None), ProviderMode::LocalWhisper);
    assert_eq!(provider_vi_name(ProviderMode::OpenAIRealtime), "OpenAI Realtime");
    assert_eq!(short_provider_label("soniox"), "Soniox");
    assert_eq!(short_provider_label("openai-realtime"), "OpenAI");
    assert_eq!(short_provider_label("whisper-local"), "Whisper");
}

#[test]
fn hotswap_messages_and_plans() {
    assert_eq!(HotswapError::Cancelled.to_toast_message(), "Đã huỷ đổi engine");
    assert_eq!(HotswapError::Cancelled.toast_severity(), ToastSeverity::Info);
    assert_eq!(HotswapError::PersistFailed("io".into()).toast_severity(), ToastSeverity::Warn);
    assert_eq!(HotswapError::JoinTimeout.toast_severity(), ToastSeverity::Error);
    assert_eq!(plan_swap(ProviderMode::SonioxCloud, ProviderMode::SonioxCloud, true), SwapPlan::NoOp);
    assert_eq!(plan_swap(ProviderMode::SonioxCloud, ProviderMode::LocalWhisper, true), SwapPlan::Confirm);
    assert_eq!(plan_swap(ProviderMode::SonioxCloud, ProviderMode::LocalWhisper, false), SwapPlan::Proceed);
}

#[test]
fn device_and_search_labels() {
    let mic = DeviceInfo { name: "USB Mic".into(), is_default: true, kind: DeviceKind::Input };
    assert_eq!(format_device_label(&mic), "🎙  USB Mic (mặc định)");
    let spk = DeviceInfo { name: "Speakers".into(), is_default: false, kind: DeviceKind::Output };
    assert_eq!(format_device_label(&spk), "🔊  Speakers (loopback)");
    assert_eq!(sanitize_json("a\"b\\c"), "a\\\"b\\\\c");
    let hit = SearchHit {
        session_id: 3,
        session_started_at_ms: 0,
        language: None,
        text: "x".into(),
        start_ms: 0,
        snippet: " cuoc <b>hop</b> nay ".into(),
    };
    assert_eq!(format_search_hit_line(&hit), "  •  #3 · ? · cuoc hop nay");
    assert_eq!(format_search_results("zz", &Ok(vec![])), "  (Không tìm thấy kết quả cho 'zz')");
    assert_eq!(format_search_results("hop", &Ok(vec![hit])), "  🔎 1 kết quả khớp 'hop'\n  •  #3 · ? · cuoc hop nay");
    assert_eq!(format_search_results("q", &Err("boom".into())), "  (lỗi tìm: boom)");
}

#[test]
fn sizes_and_times() {
    assert_eq!(format_model_size(142 * 1_048_576).as_deref(), Some("142 MB"));
    assert_eq!(format_model_size(2048).as_deref(), Some("2 KB"));
    assert_eq!(format_model_size(1_500_000_000), None);
    assert_eq!(format_ms_as_timestamp(65_000), "1:05");
    assert_eq!(format_ms_as_timestamp(-5_000), "0:00");
    assert_eq!(format_wall_clock(0), "07:00");
    assert_eq!(format_wall_clock(17 * 3600 + 30 * 60), "00:30");
}

fn line_count_after_upserts(n: u64) -> Vec<TranscriptStreamLine> {
    let mut lines = Vec::new();
    let mut generation = 0u64;
    for seq in 0..n {
        let i = upsert_line_for_seq(&mut lines, &mut generation, seq, 100, "10:00".to_string());
        lines[i].text = format!("t{seq}");
    }
    lines
}

#[test]
fn transcript_upsert_finds_existing_and_caps_at_200() {
    let mut lines = line_count_after_upserts(3);
    let mut generation = 7u64;
    let i = upsert_line_for_seq(&mut lines, &mut generation, 1, 5, "x".to_string());
    assert_eq!(generation, 8);
    assert_eq!(i, 1);
    assert_eq!(lines.len(), 3);
    assert_eq!(lines[1].text, "t1");
    let lines = line_count_after_upserts(205);
    assert_eq!(lines.len(), 200);
    assert_eq!(lines[0].seq, 5);
    assert_eq!(lines[199].text, "t204");
    assert_eq!(lines[199].original_lang, "?");
    assert_eq!(lines[199].duration_ms, 100);
}

#[test]
fn recording_settings_clamp() {
    assert_eq!(clamp_vad_timing(50, 100_000), (100, 15_000));
    assert_eq!(clamp_vad_timing(999, 800), (800, 3000));
    assert_eq!(clamp_vad_timing(300, 6000), (300, 6000));
    let c = into_vad_config(300, 6000);
    assert_eq!((c.hangover_ms, c.max_duration_ms, c.pre_roll_ms, c.min_duration_ms, c.partial_emit_ms), (300, 6000, 200, 200, 1500));
}

#[test]
fn dialog_show_and_close() {
    let mut d = DialogState::default();
    assert!(!d.open);
    d.show("My Title", "My Body");
    assert!(d.open);
    assert_eq!(d.title, "My Title");
    d.close();
    assert!(!d.open);
    assert_eq!(d.body, "My Body");
}

fn blank_line() -> TranscriptStreamLine {
    TranscriptStreamLine {
        seq: 4,
        time: "10:00:00".into(),
        lang: String::new(),
        text: String::new(),
        original_lang: "?".into(),
        original_text: String::new(),
        duration_ms: 0,
        translation_done: false,
    }
}

#[test]
fn partial_fills_original_text() {
    let mut line = blank_line();
    line.apply_partial("xin", None);
    assert_eq!(line.original_text, "xin");
    assert_eq!(line.original_lang, "?");
    line.apply_partial("xin chào", Some("vi"));
    assert_eq!(line.original_text, "xin chào");
    assert_eq!(line.original_lang, "vi");
    assert!(!line.translation_done);
    assert_eq!(line.time, "10:00:00");
}

#[test]
fn final_sets_duration_and_translation_marks_done() {
    let mut line = blank_line();
    line.apply_final("xin chào", Some("vi"), 1_250);
    assert_eq!(line.duration_ms, 1_250);
    assert_eq!(line.original_text, "xin chào");
    line.apply_translation("hello", "");
    assert_eq!(line.text, "hello");
    assert_eq!(line.lang, "?");
    assert!(line.translation_done);
    line.apply_translation("hello", "en");
    assert_eq!(line.lang, "en");
    assert_eq!(line.original_text, "xin chào");
}

#[test]
fn latest_banner_needs_visible_text() {
    assert!(shows_as_latest(" chào "));
    assert!(!shows_as_latest("  \n"));
    assert!(!shows_as_latest(""));
}

#[test]
fn model_files_are_ggml_bins() {
    assert!(is_model_file_name("ggml-base.bin"));
    assert!(is_model_file_name("ggml-large-v3.bin"));
    assert!(!is_model_file_name("ggml-base.bin.part"));
    assert!(!is_model_file_name("model.bin"));
    assert!(!is_model_file_name("ggml-"));
}

#[test]
fn upsert_twice_edits_one_row_and_bumps_counter_each_time() {
    let mut lines: Vec<TranscriptStreamLine> = Vec::new();
    let mut generation = 0u64;
    let i = upsert_line_for_seq(&mut lines, &mut generation, 5, 1200, "10:00".to_string());
    lines[i].text = "a".into();
    let j = upsert_line_for_seq(&mut lines, &mut generation, 5, 0, "10:01".to_string());
    lines[j].lang = "vi".into();
    assert_eq!(lines.len(), 1);
    assert_eq!(lines[0].seq, 5);
    assert_eq!(lines[0].text, "a");
    assert_eq!(lines[0].lang, "vi");
    assert_eq!(lines[0].duration_ms, 1200);
    assert_eq!(lines[0].original_lang, "?");
    assert!(!lines[0].translation_done);
    assert_eq!(generation, 2);
    let mut top = u64::MAX;
    let _ = upsert_line_for_seq(&mut lines, &mut top, 6, 0, "10:02".to_string());
    assert_eq!(top, 0);
}

#[test]
fn transcript_events_update_status_and_lines() {
    let mut status = LiveStatus::new();
    let mut lines: Vec<TranscriptStreamLine> = Vec::new();
    let mut generation = 0u64;

    assert!(!apply_transcript_event(&mut status, &mut lines, &mut generation, &TranscriptEvent::Connected, "10:00".into()));
    assert!(status.provider_online);
    assert!(lines.is_empty());
    assert_eq!(generation, 0);

    let partial = TranscriptEvent::Partial { seq: 3, text: "xin".into(), language: None };
    assert!(!apply_transcript_event(&mut status, &mut lines, &mut generation, &partial, "10:00".into()));
    assert_eq!(lines.len(), 1);
    assert_eq!(lines[0].original_text, "xin");
    assert_eq!(lines[0].original_lang, "?");
    assert_eq!(status.last_transcript, "xin");
    assert_eq!(status.utterance_count, 0);
    assert_eq!(generation, 1);

    let fin = TranscriptEvent::Final {
        seq: 3,
        text: "xin chào".into(),
        language: Some("vi".into()),
        speaker: None,
        start_ms: 0,
        end_ms: 1_500,
    };
    assert!(!apply_transcript_event(&mut status, &mut lines, &mut generation, &fin, "10:01".into()));
    assert_eq!(lines.len(), 1);
    assert_eq!(lines[0].original_text, "xin chào");
    assert_eq!(lines[0].original_lang, "vi");
    assert_eq!(lines[0].duration_ms, 1_500);
    assert_eq!(lines[0].time, "10:00");
    assert_eq!(status.utterance_count, 1);
    assert_eq!(status.last_seq, 3);
    assert_eq!(status.last_duration_ms, 1_500);
    assert_eq!(status.last_language, "vi");

    let pending = TranscriptEvent::Translation {
        seq: 3,
        text: "hel".into(),
        source_lang: "vi".into(),
        target_lang: "en".into(),
        is_final: false,
    };
    assert!(!apply_transcript_event(&mut status, &mut lines, &mut generation, &pending, "10:01".into()));
    assert_eq!(generation, 2);
    assert!(!lines[0].translation_done);

    let done = TranscriptEvent::Translation {
        seq: 3,
        text: "hello".into(),
        source_lang: "vi".into(),
        target_lang: "en".into(),
        is_final: true,
    };
    assert!(apply_transcript_event(&mut status, &mut lines, &mut generation, &done, "10:02".into()));
    assert!(lines[0].translation_done);
    assert_eq!(lines[0].text, "hello");
    assert_eq!(lines[0].lang, "en");
    assert_eq!(status.last_transcript, "hello");
    assert_eq!(generation, 3);

    let blank = TranscriptEvent::Partial { seq: 4, text: "  ".into(), language: Some("vi".into()) };
    apply_transcript_event(&mut status, &mut lines, &mut generation, &blank, "10:03".into());
    assert_eq!(lines.len(), 2);
    assert_eq!(status.last_transcript, "hello");

    let err = TranscriptEvent::Error { code: "500".into(), message: "x".into() };
    assert!(!apply_transcript_event(&mut status, &mut lines, &mut generation, &err, "10:03".into()));
    apply_transcript_event(&mut status, &mut lines, &mut generation, &TranscriptEvent::Disconnected, "10:04".into());
    assert!(!status.provider_online);
    assert_eq!(generation, 4);
}

#[test]
fn slider_values_are_clamped() {
    assert_eq!(vong::ui::vad_timing_from_sliders(-5, -1), (100, 3000));
    assert_eq!(vong::ui::vad_timing_from_sliders(450, 9000), (450, 9000));
    assert_eq!(vong::ui::vad_timing_from_sliders(5000, 60_000), (800, 15000));
}

#[test]
fn engine_swap_steps() {
    let w = ProviderMode::LocalWhisper;
    let s = ProviderMode::SonioxCloud;
    assert_eq!(swap_begin(w, w, true), SwapState::Finished(Ok(())));
    assert_eq!(swap_begin(w, s, false), SwapState::Stopping);
    let asking = swap_begin(w, s, true);
    assert_eq!(asking, SwapState::Asking);
    assert_eq!(swap_next(SwapState::Asking, SwapInput::Answer(false)), SwapState::Finished(Err(HotswapError::Cancelled)));
    let st = swap_next(asking, SwapInput::Answer(true));
    assert_eq!(st, SwapState::Stopping);
    assert_eq!(swap_next(SwapState::Stopping, SwapInput::OldStopped(false)), SwapState::Finished(Err(HotswapError::JoinTimeout)));
    let st = swap_next(st, SwapInput::OldStopped(true));
    assert_eq!(st, SwapState::Starting);
    assert_eq!(
        swap_next(SwapState::Starting, SwapInput::NewStarted(Err("no model".into()))),
        SwapState::Finished(Err(HotswapError::SpawnFailed("no model".into())))
    );
    let st = swap_next(st, SwapInput::NewStarted(Ok(())));
    assert_eq!(st, SwapState::Saving);
    assert_eq!(
        swap_next(SwapState::Saving, SwapInput::Saved(Err("disk full".into()))),
        SwapState::Finished(Err(HotswapError::PersistFailed("disk full".into())))
    );
    assert_eq!(swap_next(st, SwapInput::Saved(Ok(()))), SwapState::Finished(Ok(())));
    assert_eq!(swap_next(SwapState::Asking, SwapInput::OldStopped(true)), SwapState::Asking);
    assert_eq!(swap_success_toast(s), "Đã đổi engine sang Soniox");
}
