use vong::i18n::{last_session_content, last_session_from};

fn save_then_load(id: i64) -> Option<i64> {
    let written = last_session_content(id);
    last_session_from(Some(&written))
}

#[test]
fn write_then_read_returns_same_session_id() {
    assert_eq!(save_then_load(42), Some(42));
}

#[test]
fn overwrite_returns_latest_session_id() {
    let _first = last_session_content(1);
    let second = last_session_content(99);
    assert_eq!(last_session_from(Some(&second)), Some(99));
}

#[test]
fn load_returns_none_when_file_absent() {
    assert_eq!(last_session_from(None), None, "missing file must yield None");
}

#[test]
fn load_returns_none_on_non_integer_content() {
    assert_eq!(last_session_from(Some("not_a_number")), None, "non-integer content must yield None");
}

#[test]
fn load_returns_none_on_empty_file() {
    assert_eq!(last_session_from(Some("")), None, "empty file must yield None");
}

#[test]
fn large_session_id_roundtrip() {
    assert_eq!(save_then_load(i64::MAX), Some(i64::MAX));
    assert_eq!(save_then_load(i64::MIN), Some(i64::MIN));
    assert_eq!(save_then_load(0), Some(0));
    assert_eq!(save_then_load(-5), Some(-5));
}

#[test]
fn whitespace_trimmed_on_load() {
    assert_eq!(last_session_from(Some("7\n")), Some(7));
}

#[test]
fn parse_follows_rust_integer_rules() {
    assert_eq!(last_session_from(Some("+12")), Some(12));
    assert_eq!(last_session_from(Some("-")), None);
    assert_eq!(last_session_from(Some("9223372036854775808")), None);
    assert_eq!(last_session_from(Some("-9223372036854775809")), None);
    assert_eq!(last_session_from(Some("1 2")), None);
    assert_eq!(last_session_content(-42), "-42");
}
