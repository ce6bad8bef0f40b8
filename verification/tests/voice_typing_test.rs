use vong::toast::ToastSeverity;
use vong::voice_typing::{
    before_wait, dictation_result, injection_payload, keep_final_text, ring_capacity,
    sanitize_for_injection, CollectAction, CollectEvent, SilenceGate, VoiceTypingConfig,
    VoiceTypingError, VoiceTypingState,
};

fn inject_text_empty_check(text: &str) -> Result<(), String> {
    match injection_payload(text) {
        None => Ok(()),
        Some(_) => Err("would call enigo".to_string()),
    }
}

#[test]
fn state_idle_label_and_not_active() {
    let s = VoiceTypingState::Idle;
    assert_eq!(s.label(), "idle");
    assert!(!s.is_active());
}

#[test]
fn state_listening_label_and_is_active() {
    let s = VoiceTypingState::Listening { started_at: std::time::Instant::now() };
    assert_eq!(s.label(), "listening");
    assert!(s.is_active());
}

#[test]
fn state_transcribing_label_and_is_active() {
    let s = VoiceTypingState::Transcribing;
    assert_eq!(s.label(), "transcribing");
    assert!(s.is_active());
}

#[test]
fn state_injecting_label_and_is_active() {
    let s = VoiceTypingState::Injecting;
    assert_eq!(s.label(), "injecting");
    assert!(s.is_active());
}

#[test]
fn state_error_label_and_not_active() {
    let s = VoiceTypingState::Error("mic denied".to_string());
    assert_eq!(s.label(), "error");
    assert!(!s.is_active(), "Error state must not be considered active");
}

#[test]
fn state_transitions_idle_to_listening_to_idle() {
    let mut state = VoiceTypingState::Idle;
    assert!(!state.is_active());
    state = VoiceTypingState::Listening { started_at: std::time::Instant::now() };
    assert!(state.is_active());
    state = VoiceTypingState::Idle;
    assert!(!state.is_active());
    assert_eq!(state.label(), "idle");
}

#[test]
fn config_default_is_disabled() {
    let cfg = VoiceTypingConfig::default();
    assert!(!cfg.enabled, "default must be OFF for user safety");
    assert_eq!(cfg.hotkey, "Ctrl+Shift+V");
    assert_eq!(cfg.max_duration_secs, 10);
    assert_eq!(cfg.language, "vi");
}

#[test]
fn config_clamp_max_duration_to_bounds() {
    let mut cfg = VoiceTypingConfig {
        enabled: false,
        hotkey: "Ctrl+Shift+V".to_string(),
        max_duration_secs: 99,
        language: "vi".to_string(),
    };
    cfg.clamp_in_place();
    assert_eq!(cfg.max_duration_secs, 30, "clamped to max 30");
    cfg.max_duration_secs = 0;
    cfg.clamp_in_place();
    assert_eq!(cfg.max_duration_secs, 1, "clamped to min 1");
}

#[test]
fn config_clamp_blank_language_defaults_to_vi() {
    let mut cfg = VoiceTypingConfig {
        enabled: true,
        hotkey: "Ctrl+Alt+T".to_string(),
        max_duration_secs: 5,
        language: "  \t".to_string(),
    };
    cfg.clamp_in_place();
    assert_eq!(cfg.language, "vi");
    assert_eq!(cfg.hotkey, "Ctrl+Alt+T");
    assert_eq!(cfg.max_duration_secs, 5);
}

#[test]
fn sanitize_strips_nul_esc_bs() {
    let input = "hello\0world\x1bbye\x08back";
    let out = sanitize_for_injection(input);
    assert!(!out.contains('\0'), "NUL must be stripped");
    assert!(!out.contains('\x1b'), "ESC must be stripped");
    assert!(!out.contains('\x08'), "BS must be stripped");
    assert!(out.contains("hello") && out.contains("world") && out.contains("bye"),
        "printable ASCII must be preserved");
}

#[test]
fn sanitize_keeps_newlines_and_tabs() {
    let input = "line1\nline2\ttabbed";
    let out = sanitize_for_injection(input);
    assert!(out.contains('\n'), "\\n must be preserved");
    assert!(out.contains('\t'), "\\t must be preserved");
}

#[test]
fn sanitize_keeps_unicode_and_vietnamese() {
    let input = "Xin chào bạn 🎉 日本語 한국어 中文 không";
    let out = sanitize_for_injection(input);
    assert_eq!(out, input, "all valid Unicode must pass through unchanged");
}

#[test]
fn sanitize_empty_input_returns_empty() {
    assert_eq!(sanitize_for_injection(""), "");
}

#[test]
fn sanitize_all_c0_controls_stripped_except_newline_and_tab() {
    let controls: String = (1u8..32u8)
        .filter(|&b| b != b'\n' && b != b'\t')
        .map(|b| b as char)
        .collect();
    let out = sanitize_for_injection(&controls);
    for c in out.chars() {
        assert!(
            !c.is_control() || c == '\n' || c == '\t',
            "unexpected control char U+{:04X} survived sanitization",
            c as u32
        );
    }
}

#[test]
fn sanitize_strips_c1_and_delete() {
    let out = sanitize_for_injection("a\u{7f}b\u{85}c\u{9f}d\u{a0}e");
    assert_eq!(out, "abcd\u{a0}e");
}

#[test]
fn inject_text_returns_ok_when_sanitized_to_empty() {
    let only_controls = "\0\x1b\x08\x07\x0e\x0f";
    let result = inject_text_empty_check(only_controls);
    assert!(result.is_ok(), "empty post-sanitize must short-circuit to Ok");
}

#[test]
fn inject_text_proceeds_for_printable_text() {
    let result = inject_text_empty_check("xin chào");
    assert!(result.is_err(), "printable text must pass sanitization and proceed to injection step");
    assert_eq!(result.unwrap_err(), "would call enigo");
}

#[test]
fn voice_typing_error_messages() {
    let e = VoiceTypingError::MicUnavailable("busy".to_string());
    assert_eq!(e.to_toast_message(), "Không truy cập được mic");
    assert_eq!(e.message(), "Không truy cập được mic: busy");
    let o = VoiceTypingError::Other("custom".to_string());
    assert_eq!(o.to_toast_message(), "custom");
    assert_eq!(VoiceTypingError::MainPipelineActive.to_toast_message(), "Đang ghi phiên chính — dừng phiên trước");
}

#[test]
fn ring_holds_longest_dictation_plus_two_seconds() {
    assert_eq!(ring_capacity(10), 16_000 * 2 * 12);
    assert_eq!(ring_capacity(30), 16_000 * 2 * 32);
}

#[test]
fn wait_is_cancelled_or_packed_before_receiving() {
    assert_eq!(before_wait(true, 0, 10), Some(CollectAction::Cancel));
    assert_eq!(before_wait(true, 50_000, 10), Some(CollectAction::Cancel));
    assert_eq!(before_wait(false, 10_000, 10), Some(CollectAction::Pack));
    assert_eq!(before_wait(false, 9_999, 10), None);
}

#[test]
fn silence_gate_packs_after_quiet_following_speech() {
    let mut g = SilenceGate::new();
    assert_eq!(g.on_event(CollectEvent::Chunk { loud: false }, 50), CollectAction::Continue);
    assert!(!g.had_speech);
    assert_eq!(g.silence_since_ms, None);
    assert_eq!(g.on_event(CollectEvent::Chunk { loud: true }, 100), CollectAction::Continue);
    assert!(g.had_speech);
    assert_eq!(g.on_event(CollectEvent::Chunk { loud: false }, 200), CollectAction::Continue);
    assert_eq!(g.silence_since_ms, Some(200));
    assert_eq!(g.on_event(CollectEvent::Timeout, 1_000), CollectAction::Continue);
    assert_eq!(g.on_event(CollectEvent::Chunk { loud: false }, 1_699), CollectAction::Continue);
    assert_eq!(g.silence_since_ms, Some(200));
    assert_eq!(g.on_event(CollectEvent::Chunk { loud: false }, 1_700), CollectAction::Pack);
}

#[test]
fn loud_chunk_restarts_the_quiet() {
    let mut g = SilenceGate::new();
    g.on_event(CollectEvent::Chunk { loud: true }, 0);
    g.on_event(CollectEvent::Chunk { loud: false }, 100);
    g.on_event(CollectEvent::Chunk { loud: true }, 1_000);
    assert_eq!(g.silence_since_ms, None);
    assert_eq!(g.on_event(CollectEvent::Chunk { loud: false }, 1_700), CollectAction::Continue);
    assert_eq!(g.on_event(CollectEvent::Chunk { loud: false }, 3_199), CollectAction::Continue);
    assert_eq!(g.on_event(CollectEvent::Chunk { loud: false }, 3_200), CollectAction::Pack);
}

#[test]
fn closed_stream_packs() {
    let mut g = SilenceGate::new();
    assert_eq!(g.on_event(CollectEvent::Closed, 0), CollectAction::Pack);
    assert_eq!(g, SilenceGate::new());
}

#[test]
fn final_text_prefers_first_pass() {
    let mut kept = String::new();
    keep_final_text(&mut kept, "gốc".into(), "dịch".into());
    assert_eq!(kept, "gốc");
    keep_final_text(&mut kept, String::new(), "dịch".into());
    assert_eq!(kept, "dịch");
    keep_final_text(&mut kept, String::new(), String::new());
    assert_eq!(kept, "dịch");
}

#[test]
fn dictation_result_is_trimmed_text() {
    assert_eq!(dictation_result("  xin chào \n"), Some("xin chào".to_string()));
    assert_eq!(dictation_result(" \t "), None);
    assert_eq!(dictation_result(""), None);
}

#[test]
fn failure_toast_severity() {
    assert_eq!(VoiceTypingError::MainPipelineActive.toast_severity(), ToastSeverity::Warn);
    assert_eq!(VoiceTypingError::WhisperModelMissing.toast_severity(), ToastSeverity::Error);
    assert_eq!(VoiceTypingError::InjectionFailed("x".into()).toast_severity(), ToastSeverity::Error);
}
