use vong::dictionary::{
    parse_context, validate_new, vi_error_msg, DictContext, DictEntry, DictError, DictionaryFile,
};

fn common(p: &str) -> DictEntry {
    DictEntry { phrase: p.to_string(), context: DictContext::Common }
}

#[test]
fn validate_rejects_empty_phrase() {
    let entries: Vec<DictEntry> = vec![];
    assert_eq!(validate_new(&entries, ""), Err(DictError::Empty));
    assert_eq!(validate_new(&entries, "  "), Err(DictError::Empty));
}

#[test]
fn validate_rejects_phrase_over_80_chars() {
    let long_phrase: String = "A".repeat(81);
    let entries: Vec<DictEntry> = vec![];
    assert_eq!(validate_new(&entries, &long_phrase), Err(DictError::TooLong));
}

#[test]
fn validate_accepts_phrase_at_exactly_80_chars() {
    let phrase: String = "A".repeat(80);
    let entries: Vec<DictEntry> = vec![];
    assert_eq!(validate_new(&entries, &phrase), Ok(()));
}

#[test]
fn validate_rejects_duplicate_phrase() {
    let entries = vec![common("OKR")];
    assert_eq!(validate_new(&entries, "OKR"), Err(DictError::Duplicate));
}

#[test]
fn validate_rejects_when_at_cap() {
    let entries: Vec<DictEntry> = (0..100).map(|i| common(&format!("term_{i}"))).collect();
    assert_eq!(validate_new(&entries, "new_term"), Err(DictError::AtCap));
}

#[test]
fn load_truncates_entries_beyond_hard_cap() {
    let mut f = DictionaryFile { version: 1, entries: (0..105).map(|i| common(&format!("term_{i}"))).collect() };
    f.entries.push(common(&"ơ".repeat(90)));
    f.enforce_limits();
    assert_eq!(f.entries.len(), 100, "entries beyond 100 must be truncated on load");
    let mut g = DictionaryFile { version: 1, entries: vec![common(&"ơ".repeat(90))] };
    g.enforce_limits();
    assert_eq!(g.entries[0].phrase.chars().count(), 80);
}

#[test]
fn add_edit_delete_and_move_keep_order() {
    let mut f = DictionaryFile::default();
    assert_eq!(f.add("  OKR ", "names"), Ok(()));
    assert_eq!(f.add("WebSocket", "technical"), Ok(()));
    assert_eq!(f.add("OKR", "common"), Err(DictError::Duplicate));
    assert_eq!(f.entries[0].phrase, "OKR");
    assert_eq!(f.entries[0].context, DictContext::Names);
    assert!(f.move_down(0));
    assert_eq!(f.entries[0].phrase, "WebSocket");
    assert!(!f.move_down(1));
    assert!(f.move_up(1));
    assert_eq!(f.entries[0].phrase, "OKR");
    assert!(!f.edit(0, "WebSocket", "common"), "a phrase of another entry is refused");
    assert!(f.edit(0, " OKRs ", "bogus"));
    assert_eq!(f.entries[0].phrase, "OKRs");
    assert_eq!(f.entries[0].context, DictContext::Common);
    assert!(f.delete(0));
    assert!(!f.delete(5));
    assert_eq!(f.entries.len(), 1);
}

#[test]
fn error_messages_and_contexts() {
    assert_eq!(vi_error_msg(&DictError::Duplicate), "Mục đã tồn tại");
    assert_eq!(parse_context(" names "), DictContext::Names);
    assert_eq!(parse_context("technical"), DictContext::Technical);
    assert_eq!(parse_context("NAMES"), DictContext::Common);
    assert_eq!(DictContext::Technical.as_str(), "technical");
}
