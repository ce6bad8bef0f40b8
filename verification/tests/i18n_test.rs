use vong::i18n::{locale_from_file, Locale, Translations};

fn parse_locale_from_file_content(content: Option<&str>) -> Locale {
    locale_from_file(content)
}

#[test]
fn locale_parse_vi_from_string() {
    assert_eq!(Locale::from_str("vi"), Locale::Vi);
    assert_eq!(Locale::from_str("  vi  "), Locale::Vi);
}

#[test]
fn locale_parse_en_from_string() {
    assert_eq!(Locale::from_str("en"), Locale::En);
    assert_eq!(Locale::from_str("  en  "), Locale::En);
}

#[test]
fn locale_parse_defaults_to_vi_on_unknown() {
    assert_eq!(Locale::from_str("fr"), Locale::Vi);
    assert_eq!(Locale::from_str(""), Locale::Vi);
    assert_eq!(Locale::from_str("unknown"), Locale::Vi);
}

#[test]
fn translation_lookup_vi() {
    let tr = Translations::new(Locale::Vi);
    assert_eq!(tr.t("tap_to_record"), "Nhấn để ghi");
    assert_eq!(tr.t("history_title"), "Tìm + Lịch sử");
    assert_eq!(tr.t("tab_system"), "System");
}

#[test]
fn translation_lookup_en() {
    let tr = Translations::new(Locale::En);
    assert_eq!(tr.t("tap_to_record"), "Tap to record");
    assert_eq!(tr.t("history_title"), "Search + History");
    assert_eq!(tr.t("history_empty"), "No sessions saved yet.");
}

#[test]
fn translation_lookup_missing_key_returns_key() {
    let tr_vi = Translations::new(Locale::Vi);
    let tr_en = Translations::new(Locale::En);
    assert_eq!(tr_vi.t("nonexistent_key_xyz"), "nonexistent_key_xyz");
    assert_eq!(tr_en.t("nonexistent_key_xyz"), "nonexistent_key_xyz");
}

#[test]
fn translation_with_locale_switch() {
    let tr = Translations::new(Locale::Vi);
    assert_eq!(tr.t("tap_to_record"), "Nhấn để ghi");
    let tr_en = tr.with_locale(Locale::En);
    assert_eq!(tr_en.t("tap_to_record"), "Tap to record");
    assert_eq!(tr_en.locale(), Locale::En);
}

#[test]
fn locale_parse_vi_from_file() {
    assert_eq!(parse_locale_from_file_content(Some("vi")), Locale::Vi);
    assert_eq!(parse_locale_from_file_content(Some("  vi  ")), Locale::Vi);
}

#[test]
fn locale_parse_en_from_file() {
    assert_eq!(parse_locale_from_file_content(Some("en")), Locale::En);
    assert_eq!(parse_locale_from_file_content(Some("  en  ")), Locale::En);
}

#[test]
fn locale_defaults_to_vi_when_file_absent() {
    assert_eq!(parse_locale_from_file_content(None), Locale::Vi);
}

#[test]
fn locale_defaults_to_vi_on_unknown_content() {
    assert_eq!(parse_locale_from_file_content(Some("fr")), Locale::Vi);
    assert_eq!(parse_locale_from_file_content(Some("")), Locale::Vi);
    assert_eq!(parse_locale_from_file_content(Some("unknown")), Locale::Vi);
    assert_eq!(parse_locale_from_file_content(Some("EN")), Locale::Vi);
}

#[test]
fn translation_lookup_vi_returns_vietnamese_text() {
    let tr = Translations::new(Locale::Vi);
    assert_eq!(tr.t("tap_to_record"), "Nhấn để ghi");
    assert_eq!(tr.t("history_title"), "Tìm + Lịch sử");
    assert_eq!(tr.t("history_empty"), "Chưa có phiên nào được lưu.");
    assert_eq!(tr.t("toggle_on"), "Đang bật");
    assert_eq!(tr.t("toggle_off"), "Đang tắt");
}

#[test]
fn translation_lookup_en_returns_english_text() {
    let tr = Translations::new(Locale::En);
    assert_eq!(tr.t("tap_to_record"), "Tap to record");
    assert_eq!(tr.t("history_title"), "Search + History");
    assert_eq!(tr.t("history_empty"), "No sessions saved yet.");
    assert_eq!(tr.t("toggle_on"), "On");
    assert_eq!(tr.t("toggle_off"), "Off");
}

#[test]
fn translation_lookup_missing_key_returns_key_itself() {
    let tr_vi = Translations::new(Locale::Vi);
    let tr_en = Translations::new(Locale::En);
    assert_eq!(tr_vi.t("nonexistent_key_xyz_123"), "nonexistent_key_xyz_123");
    assert_eq!(tr_en.t("nonexistent_key_xyz_123"), "nonexistent_key_xyz_123");
}

#[test]
fn translation_same_key_both_locales_differ_when_appropriate() {
    let vi = Translations::new(Locale::Vi);
    let en = Translations::new(Locale::En);
    assert_ne!(vi.t("tap_to_record"), en.t("tap_to_record"));
    assert_ne!(vi.t("history_empty"), en.t("history_empty"));
}

#[test]
fn translation_locale_write_read_roundtrip() {
    let vi_str = "vi";
    let en_str = "en";
    assert_eq!(Locale::from_str(vi_str), Locale::Vi);
    assert_eq!(Locale::from_str(en_str), Locale::En);
    let back_vi = Locale::from_str(vi_str).as_str();
    let back_en = Locale::from_str(en_str).as_str();
    assert_eq!(back_vi, vi_str);
    assert_eq!(back_en, en_str);
}
