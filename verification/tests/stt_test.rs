use std::time::Instant;
use vong::reconnect::ExponentialBackoff;
use vong::stt::{
    events_for_message, map_token, pcm16_le_bytes, reconnect_step, ApiKey, SonioxProvider, SttError,
    StreamOpts, Token, TokenMessage, TranscriptEvent,
};

#[test]
fn provider_with_url_override() {
    let provider = SonioxProvider::new(ApiKey::from_raw("test".into()))
        .with_url("wss://staging.example.com")
        .with_model("stt-rt-test");
    assert_eq!(provider.ws_url(), "wss://staging.example.com");
    assert_eq!(provider.model(), "stt-rt-test");
    assert_eq!(provider.name(), "soniox");
}

#[test]
fn build_config_minimal() {
    let provider = SonioxProvider::new(ApiKey::from_raw("test-key".into()));
    let opts = StreamOpts::default();
    let cfg = provider.build_config(&opts);
    assert_eq!(cfg.audio_format, "pcm_s16le");
    assert_eq!(cfg.sample_rate, 16_000);
    assert_eq!(cfg.num_channels, 1);
    assert!(cfg.translation.is_none());
    assert_eq!(cfg.api_key, "test-key");
    assert_eq!(cfg.model, "stt-rt-preview");
}

#[test]
fn build_config_with_translation() {
    let provider = SonioxProvider::new(ApiKey::from_raw("test-key".into()));
    let opts = StreamOpts {
        language_hint: Some("vi".into()),
        enable_lid: true,
        enable_diarization: false,
        enable_translation_to: Some("en".into()),
    };
    let cfg = provider.build_config(&opts);
    assert!(cfg.enable_language_identification);
    assert_eq!(cfg.language_hints.as_deref(), Some(&["vi".to_string()][..]));
    let t = cfg.translation.expect("translation set");
    assert_eq!(t.target_language, "en");
    assert_eq!(t.mode, "one_way");
}

#[test]
fn map_token_partial() {
    let mut seq = 0u64;
    let tok = Token {
        text: "Xin chào".into(),
        is_final: false,
        language: Some("vi".into()),
        speaker: None,
        start_ms: Some(100),
        end_ms: Some(500),
        translation_status: None,
        source_language: None,
    };
    let event = map_token(&tok, &mut seq, Instant::now());
    match event {
        TranscriptEvent::Partial { seq: s, text, language } => {
            assert_eq!(s, 0);
            assert_eq!(text, "Xin chào");
            assert_eq!(language.as_deref(), Some("vi"));
        }
        other => panic!("expected Partial, got {other:?}"),
    }
    assert_eq!(seq, 1);
}

#[test]
fn map_token_final() {
    let mut seq = 5u64;
    let tok = Token {
        text: "Hello".into(),
        is_final: true,
        language: Some("en".into()),
        speaker: None,
        start_ms: Some(1000),
        end_ms: Some(1500),
        translation_status: None,
        source_language: None,
    };
    let event = map_token(&tok, &mut seq, Instant::now());
    match event {
        TranscriptEvent::Final { seq: s, text, start_ms, end_ms, .. } => {
            assert_eq!(s, 5);
            assert_eq!(text, "Hello");
            assert_eq!(start_ms, 1000);
            assert_eq!(end_ms, 1500);
        }
        other => panic!("expected Final, got {other:?}"),
    }
}

#[test]
fn map_token_translation() {
    let mut seq = 0u64;
    let tok = Token {
        text: "Hello".into(),
        is_final: true,
        language: Some("en".into()),
        speaker: None,
        start_ms: None,
        end_ms: None,
        translation_status: Some("translation".into()),
        source_language: Some("vi".into()),
    };
    let event = map_token(&tok, &mut seq, Instant::now());
    match event {
        TranscriptEvent::Translation { source_lang, target_lang, text, is_final, .. } => {
            assert_eq!(source_lang, "vi");
            assert_eq!(target_lang, "en");
            assert_eq!(text, "Hello");
            assert!(is_final);
        }
        other => panic!("expected Translation, got {other:?}"),
    }
}

#[test]
fn map_token_status_is_case_insensitive_and_seq_wraps() {
    let mut seq = u64::MAX;
    let tok = Token {
        text: "x".into(),
        is_final: false,
        language: None,
        speaker: None,
        start_ms: None,
        end_ms: None,
        translation_status: Some("TRANSLATION".into()),
        source_language: None,
    };
    match map_token(&tok, &mut seq, Instant::now()) {
        TranscriptEvent::Translation { seq: s, source_lang, target_lang, .. } => {
            assert_eq!(s, u64::MAX);
            assert_eq!(source_lang, "");
            assert_eq!(target_lang, "");
        }
        other => panic!("expected Translation, got {other:?}"),
    }
    assert_eq!(seq, 0);
}

#[test]
fn stt_error_messages() {
    assert_eq!(SttError::ReconnectExhausted { attempts: 3 }.message(), "reconnect exhausted after 3 attempts");
    assert_eq!(
        SttError::Provider { code: "c".into(), message: "m".into() }.message(),
        "provider error: code=c message=m"
    );
}

fn plain_token(text: &str, is_final: bool) -> Token {
    Token {
        text: text.into(),
        is_final,
        language: Some("vi".into()),
        speaker: None,
        start_ms: Some(10),
        end_ms: Some(20),
        translation_status: None,
        source_language: None,
    }
}

#[test]
fn message_events_put_error_first_and_number_tokens() {
    let tm = TokenMessage {
        tokens: vec![plain_token("một", false), plain_token("hai", true)],
        final_audio_proc_ms: None,
        total_audio_proc_ms: None,
        error_code: Some("401".into()),
        error_message: None,
    };
    let mut seq = u64::MAX;
    let events = events_for_message(&tm, &mut seq, Instant::now());
    assert_eq!(events.len(), 3);
    match &events[0] {
        TranscriptEvent::Error { code, message } => {
            assert_eq!(code, "401");
            assert_eq!(message, "");
        }
        other => panic!("expected Error, got {other:?}"),
    }
    match &events[1] {
        TranscriptEvent::Partial { seq: s, text, .. } => {
            assert_eq!(*s, u64::MAX);
            assert_eq!(text, "một");
        }
        other => panic!("expected Partial, got {other:?}"),
    }
    match &events[2] {
        TranscriptEvent::Final { seq: s, text, start_ms, end_ms, .. } => {
            assert_eq!(*s, 0);
            assert_eq!(text, "hai");
            assert_eq!((*start_ms, *end_ms), (10, 20));
        }
        other => panic!("expected Final, got {other:?}"),
    }
    assert_eq!(seq, 1);
}

#[test]
fn message_without_error_maps_tokens_only() {
    let tm = TokenMessage {
        tokens: vec![],
        final_audio_proc_ms: Some(5),
        total_audio_proc_ms: Some(5),
        error_code: None,
        error_message: None,
    };
    let mut seq = 7;
    assert!(events_for_message(&tm, &mut seq, Instant::now()).is_empty());
    assert_eq!(seq, 7);
}

#[test]
fn pcm_bytes_are_little_endian() {
    let samples = [1i16, -1, 256, i16::MIN, i16::MAX];
    let bytes = pcm16_le_bytes(&samples);
    assert_eq!(bytes, vec![1, 0, 255, 255, 0, 1, 0, 128, 255, 127]);
    let expected: Vec<u8> = samples.iter().flat_map(|s| s.to_le_bytes()).collect();
    assert_eq!(bytes, expected);
}

#[test]
fn reconnect_steps_follow_backoff_then_give_up() {
    let mut b = ExponentialBackoff::default();
    assert!(matches!(reconnect_step(&mut b, true), Ok(None)));
    assert_eq!(b.attempts(), 0);
    let secs = 1_000_000_000u128;
    assert!(matches!(reconnect_step(&mut b, false), Ok(Some(d)) if d == secs));
    assert!(matches!(reconnect_step(&mut b, false), Ok(Some(d)) if d == 2 * secs));
    assert!(matches!(reconnect_step(&mut b, false), Ok(Some(d)) if d == 4 * secs));
    match reconnect_step(&mut b, false) {
        Err(SttError::ReconnectExhausted { attempts }) => assert_eq!(attempts, 3),
        other => panic!("expected exhaustion, got {other:?}"),
    }
}
