use vong::consent::{
    auto_update_enabled_from, consent_file_content, load_consent, load_consent_raw,
    parse_version_txt, should_auto_summarize, should_check, should_init_crash_reporting,
    update_info_from, version_url, ConsentState, UpdateError, DEFAULT_R2_BASE,
    DOWNLOAD_LANDING_URL, SENTRY_DSN,
};

#[test]
fn url_construction_uses_base() {
    let base = "https://example.com/r2";
    let url = version_url(base);
    assert_eq!(url, "https://example.com/r2/latest/version.txt");
}

#[test]
fn url_construction_default_base() {
    let default_base = DEFAULT_R2_BASE;
    let url = version_url(default_base);
    assert_eq!(url, "https://dl.vong.app/latest/version.txt");
}

#[test]
fn auto_update_consent_missing_file_defaults_to_enabled() {
    let enabled = auto_update_enabled_from(None);
    assert!(enabled);
    assert!(!auto_update_enabled_from(Some(" disabled\n")));
    assert!(auto_update_enabled_from(Some("enabled")));
}

#[test]
fn update_error_network_message() {
    let e = UpdateError::Network("connection refused".into());
    assert!(e.message().contains("network error"));
    assert!(e.message().contains("connection refused"));
}

#[test]
fn update_error_parse_message() {
    let e = UpdateError::Parse("bad version".into());
    assert!(e.message().contains("version parse error"));
}

#[test]
fn parse_version_txt_plain() {
    let result = parse_version_txt("0.1.0-beta.2\n").unwrap();
    assert_eq!(result, "0.1.0-beta.2");
}

#[test]
fn parse_version_txt_trims_whitespace() {
    let result = parse_version_txt("  0.2.0  \r\n").unwrap();
    assert_eq!(result, "0.2.0");
}

#[test]
fn parse_version_txt_skips_empty_lines() {
    let result = parse_version_txt("\n\n\n1.0.0\n").unwrap();
    assert_eq!(result, "1.0.0");
}

#[test]
fn parse_version_txt_multiline_uses_first_nonempty() {
    let result = parse_version_txt("0.1.0-beta.3\nignored line\n").unwrap();
    assert_eq!(result, "0.1.0-beta.3");
}

#[test]
fn parse_version_txt_empty_body_returns_error() {
    let result = parse_version_txt("   \n  \n");
    assert!(result.is_err());
    assert!(result.unwrap_err().message().contains("empty"));
}

#[test]
fn parse_version_txt_invalid_semver_returns_error() {
    let result = parse_version_txt("not-a-version\n");
    assert!(result.is_err());
}

#[test]
fn parse_strips_whitespace_around_version() {
    let result = parse_version_txt("  0.1.0-beta.2  \n");
    assert_eq!(result.unwrap(), "0.1.0-beta.2");
}

#[test]
fn parse_uses_first_nonempty_line_ignores_rest() {
    let result = parse_version_txt("\n\n0.2.0\n0.3.0-ignored\n");
    assert_eq!(result.unwrap(), "0.2.0");
}

#[test]
fn parse_empty_body_returns_error() {
    let result = parse_version_txt("   \n\n  ");
    assert!(result.is_err(), "empty body must return an error");
    assert!(result.unwrap_err().message().contains("empty"));
}

#[test]
fn parse_invalid_semver_returns_error() {
    let result = parse_version_txt("not-a-semver\n");
    assert!(result.is_err(), "non-semver line must return an error");
}

#[test]
fn is_newer_true_when_remote_greater() {
    let info = update_info_from("0.1.0-beta.2\n", "0.1.0-beta.1").unwrap();
    assert!(info.is_newer);
    assert_eq!(info.latest, "0.1.0-beta.2");
    assert_eq!(info.current, "0.1.0-beta.1");
    assert_eq!(info.download_landing_url, DOWNLOAD_LANDING_URL);
}

#[test]
fn is_newer_false_when_equal() {
    let info = update_info_from("0.1.0-beta.1", "0.1.0-beta.1").unwrap();
    assert!(!info.is_newer);
}

#[test]
fn is_newer_false_when_older_remote() {
    let info = update_info_from("0.1.0", "0.2.0").unwrap();
    assert!(!info.is_newer);
}

#[test]
fn semver_newer_when_remote_is_greater_prerelease() {
    assert!(update_info_from("0.1.0-beta.2", "0.1.0-beta.1").unwrap().is_newer, "beta.2 must compare greater than beta.1");
}

#[test]
fn semver_not_newer_when_equal() {
    assert!(!update_info_from("0.1.0-beta.1", "0.1.0-beta.1").unwrap().is_newer, "equal versions must not be considered newer");
}

#[test]
fn semver_not_newer_when_remote_is_older() {
    assert!(!update_info_from("0.9.9", "1.0.0").unwrap().is_newer, "0.9.9 must not be newer than 1.0.0");
}

#[test]
fn update_check_reports_invalid_current_version() {
    match update_info_from("1.0.0", "nope") {
        Err(UpdateError::Parse(m)) => assert!(m.starts_with("current version invalid: ")),
        other => panic!("unexpected {other:?}"),
    }
}

#[test]
fn throttle_allows_first_and_every_four_hours() {
    assert!(should_check(0, 5));
    assert!(!should_check(1000, 1000 + 4 * 3600 - 1));
    assert!(should_check(1000, 1000 + 4 * 3600));
}

#[test]
fn load_consent_raw_absent_returns_none() {
    let raw_none = load_consent_raw(Some("unknown_garbage"));
    assert!(raw_none.is_none());
    assert_eq!(load_consent_raw(None), None);
    assert_eq!(load_consent_raw(Some(" enabled\n")), Some(true));
    assert_eq!(load_consent_raw(Some("disabled")), Some(false));
}

#[test]
fn should_auto_summarize_disabled_overrides_key() {
    let file_value: Option<bool> = Some(false);
    let key_present = true;
    let result = should_auto_summarize(file_value, key_present);
    assert!(!result, "disabled file should override key presence");
    assert!(should_auto_summarize(None, true));
    assert!(!should_auto_summarize(Some(true), false));
}

#[test]
fn dsn_placeholder_contains_replace_me_marker() {
    assert!(
        SENTRY_DSN.contains("REPLACE-ME"),
        "SENTRY_DSN must contain REPLACE-ME until the real Vong-owned DSN is pasted in"
    );
    assert!(!should_init_crash_reporting(ConsentState::Enabled, SENTRY_DSN));
    assert!(should_init_crash_reporting(ConsentState::Enabled, "https://key@o1.ingest.sentry.io/2"));
    assert!(!should_init_crash_reporting(ConsentState::Absent, "https://key@o1.ingest.sentry.io/2"));
}

#[test]
fn consent_load_treats_missing_file_as_absent() {
    assert_eq!(load_consent(None), ConsentState::Absent);
}

#[test]
fn consent_file_with_garbage_treats_as_absent() {
    assert_eq!(load_consent(Some("asdf_garbage_value\n")), ConsentState::Absent);
}

#[test]
fn consent_file_with_leading_whitespace_trims_correctly() {
    assert_eq!(load_consent(Some("  enabled\n")), ConsentState::Enabled);
}

#[test]
fn consent_absent_state_save_is_noop() {
    assert_eq!(consent_file_content(ConsentState::Absent), None);
}

#[test]
fn consent_save_and_load_enabled_roundtrip() {
    let written = consent_file_content(ConsentState::Enabled).expect("save");
    assert_eq!(load_consent(Some(written)), ConsentState::Enabled);
}

#[test]
fn consent_save_and_load_disabled_roundtrip() {
    let written = consent_file_content(ConsentState::Disabled).expect("save");
    assert_eq!(load_consent(Some(written)), ConsentState::Disabled);
}

fn event() -> vong::consent::CrashEvent {
    vong::consent::CrashEvent {
        server_name: None,
        user: None,
        extra: vec![],
        tags: vec![],
        message: None,
        exception_values: vec![],
    }
}

#[test]
fn before_send_strips_server_name() {
    let e = vong::consent::CrashEvent { server_name: Some("DESKTOP-ABC123".into()), ..event() };
    let scrubbed = vong::consent::before_send(e).expect("event must be Some after scrub");
    assert!(scrubbed.server_name.is_none(), "server_name must be cleared");
}

#[test]
fn before_send_strips_user() {
    let e = vong::consent::CrashEvent { user: Some("test-user".into()), ..event() };
    let scrubbed = vong::consent::before_send(e).expect("event must be Some after scrub");
    assert!(scrubbed.user.is_none(), "user must be cleared");
}

#[test]
fn before_send_clears_extra() {
    let mut e = event();
    e.extra.push(("some_key".to_string(), "some_value".to_string()));
    let scrubbed = vong::consent::before_send(e).expect("event must be Some after scrub");
    assert!(scrubbed.extra.is_empty(), "extra must be cleared");
}

#[test]
fn before_send_redacts_oversized_message() {
    let e = vong::consent::CrashEvent { message: Some("x".repeat(300)), ..event() };
    let scrubbed = vong::consent::before_send(e).expect("event must be Some after scrub");
    assert_eq!(scrubbed.message.as_deref(), Some("[redacted payload]"), "message > 200 chars must be redacted");
}

#[test]
fn before_send_preserves_normal_message() {
    let e = vong::consent::CrashEvent { message: Some("Connection to Soniox WS failed".into()), ..event() };
    let scrubbed = vong::consent::before_send(e).expect("event must be Some after scrub");
    assert_eq!(
        scrubbed.message.as_deref(),
        Some("Connection to Soniox WS failed"),
        "short message must pass through unchanged"
    );
}

#[test]
fn before_send_redacts_oversized_exception_value() {
    let mut e = event();
    e.exception_values.push(Some("z".repeat(201)));
    let scrubbed = vong::consent::before_send(e).expect("event must be Some after scrub");
    assert_eq!(
        scrubbed.exception_values[0].as_deref(),
        Some("[redacted payload]"),
        "exception value > 200 chars must be redacted"
    );
}

#[test]
fn before_send_retains_allowed_tags() {
    let mut e = event();
    e.tags.push(("environment".to_string(), "beta".to_string()));
    e.tags.push(("release".to_string(), "v1".to_string()));
    e.tags.push(("some_sdk_tag".to_string(), "leak".to_string()));
    let scrubbed = vong::consent::before_send(e).expect("event must be Some after scrub");
    assert!(scrubbed.tags.iter().any(|(k, _)| k == "environment"));
    assert!(scrubbed.tags.iter().any(|(k, _)| k == "release"));
    assert!(!scrubbed.tags.iter().any(|(k, _)| k == "some_sdk_tag"), "non-allow-listed tags must be removed");
}

#[test]
fn before_send_counts_characters() {
    // 150 two-byte characters (300 bytes) are within the 200-character limit.
    let e = vong::consent::CrashEvent {
        message: Some("ă".repeat(150)),
        server_name: Some("DESKTOP-ABC123".into()),
        ..event()
    };
    let r = vong::consent::before_send(e).unwrap();
    assert_eq!(r.message.unwrap(), "ă".repeat(150));
    assert!(r.server_name.is_none());
    assert!(r.user.is_none());
    assert!(r.extra.is_empty());
    // 200 characters are kept; 201 are redacted.
    let e = vong::consent::CrashEvent { message: Some("đ".repeat(200)), ..event() };
    assert_eq!(vong::consent::before_send(e).unwrap().message.unwrap(), "đ".repeat(200));
    let e = vong::consent::CrashEvent { message: Some("đ".repeat(201)), ..event() };
    assert_eq!(vong::consent::before_send(e).unwrap().message.as_deref(), Some("[redacted payload]"));
}

#[test]
fn consent_file_format_enabled_value() {
    assert_eq!(load_consent(Some("enabled\n")), ConsentState::Enabled);
}

#[test]
fn consent_file_format_disabled_value() {
    assert_eq!(load_consent(Some("disabled\n")), ConsentState::Disabled);
}

#[test]
fn consent_file_garbage_does_not_match_known_values() {
    let state = load_consent(Some("yes_please\n"));
    assert_ne!(state, ConsentState::Enabled);
    assert_ne!(state, ConsentState::Disabled);
}
