use vong::summary::SummaryPhase;
use vong::summary::summary_failure_toast;
use vong::session_detail::{
    days_to_ymd, format_duration, format_summary_for_clipboard, format_timestamp_ms,
    summary_preview, SessionDetailLoad,
};
use vong::storage::{Session, Summary};
use vong::summary::{
    determine_summary_state, state_for_error, summary_input, FailureKind, SkipReason,
    SummaryError, SummaryRunner, SummaryState,
};

fn summary(content: &str) -> Summary {
    Summary {
        id: 1,
        session_id: 1,
        kind: "session".into(),
        llm_provider: None,
        llm_model: None,
        content: content.into(),
        created_at_ms: 0,
    }
}

#[test]
fn summary_preview_none_and_truncation() {
    assert_eq!(summary_preview(None), "Chưa tóm tắt");
    let short = summary("Short content.");
    assert_eq!(summary_preview(Some(&short)), "Short content.");
    let long_sum = summary(&"A".repeat(100));
    let preview = summary_preview(Some(&long_sum));
    assert!(preview.ends_with('…'), "preview must end with ellipsis");
    assert_eq!(preview.chars().count(), 81);
}

#[test]
fn failure_kind_vi_message_invalid_key() {
    let msg = FailureKind::InvalidKey.vi_message();
    assert!(msg.contains("API key"));
}

#[test]
fn failure_kind_vi_message_rate_limited() {
    let msg = FailureKind::RateLimited.vi_message();
    assert!(msg.contains("OpenAI"));
}

#[test]
fn failure_kind_server_error_names_status() {
    assert_eq!(FailureKind::ServerError(503).vi_message(), "Lỗi server OpenAI (503) — nhấn Tạo lại sau");
}

#[test]
fn regen_count_caps_at_3() {
    let mut runner = SummaryRunner::new();
    let session_id = 7;
    for _ in 0..3 {
        assert!(runner.begin_run(session_id, true));
    }
    assert_eq!(runner.regen_count(session_id), 3);
    assert!(!runner.begin_run(session_id, true));
    assert_eq!(runner.regen_count(session_id), 3, "regen count must not exceed 3");
    assert!(runner.begin_run(session_id, false));
    assert_eq!(runner.regen_count(8), 0);
}

#[test]
fn summary_state_labels() {
    let mut runner = SummaryRunner::new();
    assert_eq!(determine_summary_state(1, &runner, false), "idle");
    assert_eq!(determine_summary_state(1, &runner, true), "done");
    runner.set_state(1, SummaryState::Pending);
    assert_eq!(determine_summary_state(1, &runner, true), "computing");
    runner.set_state(1, state_for_error(&SummaryError::NeedsApiKey));
    assert_eq!(determine_summary_state(1, &runner, true), "needs-api-key");
    runner.set_state(1, state_for_error(&SummaryError::Timeout));
    assert_eq!(determine_summary_state(1, &runner, false), "error");
    runner.set_state(1, SummaryState::Done("x".into()));
    assert_eq!(determine_summary_state(1, &runner, false), "idle");
}

#[test]
fn skip_when_segments_below_threshold() {
    let texts: Vec<String> = (0..5).map(|_| "word word word word word word word word".to_string()).collect();
    assert_eq!(summary_input(&texts), Err(SkipReason::TooShort));
}

#[test]
fn skip_when_concatenated_chars_below_threshold() {
    let texts: Vec<String> = (0..15).map(|_| "hello".to_string()).collect();
    assert_eq!(summary_input(&texts), Err(SkipReason::TooShort));
    let long: Vec<String> = (0..10).map(|_| "x".repeat(20)).collect();
    let joined = summary_input(&long).unwrap();
    assert_eq!(joined.chars().count(), 209);
}

#[test]
fn provider_error_becomes_other_failure() {
    let st = state_for_error(&SummaryError::Provider { code: "429".into(), message: "slow".into() });
    assert_eq!(st, SummaryState::Failed(FailureKind::Other("provider 429: slow".into())));
}

#[test]
fn timestamp_and_duration_labels() {
    assert_eq!(format_timestamp_ms(0, 0), "1970-01-01 00:00");
    assert_eq!(format_timestamp_ms(1_700_000_000_000, 0), "2023-11-14 22:13");
    assert_eq!(days_to_ymd(0), (1970, 1, 1));
    assert_eq!(days_to_ymd(11_016), (2000, 2, 29));
    assert_eq!(format_duration(None), "—");
    assert_eq!(format_duration(Some(0)), "—");
    assert_eq!(format_duration(Some(59_999)), "59s");
    assert_eq!(format_duration(Some(125_000)), "2m 5s");
}

#[test]
fn clipboard_text_has_header_and_content() {
    let session = Session {
        id: 42,
        started_at_ms: 0,
        ended_at_ms: None,
        duration_ms: None,
        audio_source: "mic".into(),
        provider: "soniox".into(),
        detected_language: None,
        audio_path: None,
        meta_json: None,
    };
    let detail = SessionDetailLoad { session, summary: Some(summary("Nội dung")), segments: vec![] };
    assert_eq!(format_summary_for_clipboard(&detail, 0), "Tóm tắt phiên #42 (1970-01-01 00:00)\n\nNội dung");
    let empty = SessionDetailLoad { summary: None, ..detail };
    assert_eq!(format_summary_for_clipboard(&empty, 0), "");
}

#[test]
fn clipboard_format_contains_session_id_and_content() {
    let sid: i64 = 1;
    let session = Session {
        id: sid,
        started_at_ms: 1_748_000_000_000,
        ended_at_ms: None,
        duration_ms: None,
        audio_source: "mic".into(),
        provider: "whisper-local".into(),
        detected_language: Some("vi".into()),
        audio_path: None,
        meta_json: None,
    };
    let stored = Summary {
        id: 1,
        session_id: sid,
        kind: "session".into(),
        llm_provider: None,
        llm_model: None,
        content: "Nội dung tóm tắt kiểm tra.".into(),
        created_at_ms: 1_748_000_100_000,
    };
    let detail = SessionDetailLoad { session, summary: Some(stored), segments: vec![] };
    let text = format_summary_for_clipboard(&detail, 7 * 3600);
    assert!(text.contains(&format!("#{sid}")), "must contain session id");
    assert!(text.contains("Nội dung tóm tắt kiểm tra."), "must contain summary content");
}

#[test]
fn timestamp_label_is_local_time() {
    let ict: i32 = 7 * 3600;
    assert_eq!(format_timestamp_ms(1_748_000_000_000, 0), "2025-05-23 11:33");
    assert_eq!(format_timestamp_ms(1_748_000_000_000, ict), "2025-05-23 18:33");
    assert_eq!(format_timestamp_ms(0, -3600), "0ms");
    assert_eq!(format_timestamp_ms(-1000, 0), "-1000ms");
    assert_eq!(format_timestamp_ms(-1000, 3600), "1970-01-01 00:59");
    assert_eq!(format_timestamp_ms(i64::MIN, i32::MIN), format!("{}ms", i64::MIN));
}

#[test]
fn summary_failure_toast_once_per_session() {
    let mut runner = SummaryRunner::new();
    let mut last = 0u64;
    assert_eq!(summary_failure_toast(5, &runner, &mut last), None);
    runner.set_state(5, SummaryState::Failed(FailureKind::Network));
    assert_eq!(summary_failure_toast(5, &runner, &mut last), Some("Tóm tắt thất bại — kiểm tra API key OpenAI"));
    assert_eq!(last, 5);
    assert_eq!(summary_failure_toast(5, &runner, &mut last), None);
    runner.set_state(6, SummaryState::Done("ok".into()));
    assert_eq!(summary_failure_toast(6, &runner, &mut last), None);
    assert_eq!(summary_failure_toast(0, &runner, &mut last), None);
    assert_eq!(last, 5);
}

#[test]
fn summary_run_steps_record_each_outcome() {

    let mut runner = SummaryRunner::new();
    assert!(runner.begin_run(1, false));
    assert!(!runner.after_key_check(1, false));
    assert_eq!(runner.phase(1), Some(SummaryPhase::NeedsApiKey));

    assert!(runner.begin_run(2, false));
    assert!(runner.after_key_check(2, true));
    assert_eq!(runner.after_fetch(2, Err("locked".into())), None);
    assert_eq!(runner.phase(2), Some(SummaryPhase::Failed));

    assert!(runner.begin_run(3, false));
    assert_eq!(runner.after_fetch(3, Ok(vec!["ngắn".to_string()])), None);
    assert_eq!(runner.phase(3), Some(SummaryPhase::Skipped));

    let long: Vec<String> = (0..10).map(|i| format!("đoạn thứ {i} có nội dung đủ dài để tóm tắt")).collect();
    assert!(runner.begin_run(4, true));
    let text = runner.after_fetch(4, Ok(long.clone())).expect("long enough");
    assert_eq!(text, long.join(" "));
    assert_eq!(runner.phase(4), Some(SummaryPhase::Pending));
    assert_eq!(runner.after_call(4, true, Ok("Tóm tắt".into())), Some(true));
    assert_eq!(runner.phase(4), Some(SummaryPhase::Done));
    assert_eq!(runner.regen_count(4), 1);

    assert!(runner.begin_run(5, false));
    assert_eq!(runner.after_call(5, false, Err(SummaryError::Timeout)), None);
    assert_eq!(runner.phase(5), Some(SummaryPhase::Failed));
    assert_eq!(runner.after_call(5, false, Err(SummaryError::NeedsApiKey)), None);
    assert_eq!(runner.phase(5), Some(SummaryPhase::NeedsApiKey));
}
