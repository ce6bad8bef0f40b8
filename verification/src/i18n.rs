//! Interface strings in Vietnamese (the default) and English, looked up
//! by stable keys.
use crate::text::{chars_equal, chars_of, trim, trim_chars};
use vstd::prelude::*;

verus! {

/// The two interface languages.
#[derive(Debug, Clone, Copy, PartialEq, Eq, Structural)]
pub enum Locale {
    Vi,
    En,
}

pub open spec fn locale_token(l: Locale) -> Seq<char> {
    match l {
        Locale::Vi => "vi"@,
        Locale::En => "en"@,
    }
}

/// The locale a settings file names: English for `en` (around
/// whitespace), Vietnamese for anything else.
pub open spec fn locale_of(s: Seq<char>) -> Locale {
    if trim(s) == "en"@ {
        Locale::En
    } else {
        Locale::Vi
    }
}

impl Locale {
    /// Reads a locale from the content of the locale file.
    pub fn from_str(s: &str) -> (l: Self)
        ensures
            l == locale_of(s@),
    {
        let cs = chars_of(s);
        let t = trim_chars(cs.as_slice());
        let en = chars_of("en");
        if chars_equal(t.as_slice(), en.as_slice()) {
            Locale::En
        } else {
            Locale::Vi
        }
    }

    /// Token written to the locale file.
    pub fn as_str(self) -> (s: &'static str)
        ensures
            s@ == locale_token(self),
    {
        match self {
            Locale::Vi => "vi",
            Locale::En => "en",
        }
    }
}

/// The locale given by the locale file's content, or Vietnamese when the
/// file is missing.
pub fn locale_from_file(content: Option<&str>) -> (l: Locale)
    ensures
        l == match content {
            Some(c) => locale_of(c@),
            None => Locale::Vi,
        },
{
    match content {
        Some(c) => Locale::from_str(c),
        None => Locale::Vi,
    }
}

/// Writing a locale's token and reading it back gives the same locale.
pub proof fn lemma_locale_token_roundtrip(l: Locale)
    ensures
        locale_of(locale_token(l)) == l,
{
    reveal_strlit("vi");
    reveal_strlit("en");
    let t = locale_token(l);
    assert(t.len() == 2);
    assert(!crate::text::is_ws(t[0]) && !crate::text::is_ws(t.last()));
    crate::text::lemma_trim_of_unpadded(t);
}

/// The translation table: key, Vietnamese text, English text.
pub open spec fn translation_table() -> Seq<(Seq<char>, Seq<char>, Seq<char>)> {
    seq![
        ("tap_to_record"@, "Nhấn để ghi"@, "Tap to record"@),
        ("recording_active"@, "● Đang ghi…  (nhấn để dừng)"@, "● Recording…  (tap to stop)"@),
        ("transcript_original"@, "Bản gốc"@, "Original"@),
        ("transcript_translated"@, "Bản dịch"@, "Translation"@),
        ("waiting_speech"@, "Đang chờ giọng nói…"@, "Waiting for speech…"@),
        ("col_hint_original"@, "Whisper auto-detect sẽ điền cột này ngay\nkhi mỗi utterance được nhận diện."@, "Whisper auto-detect fills this column\nwhen each utterance is recognized."@),
        ("col_hint_translated"@, "Whisper với gợi ý tiếng Việt điền cột này\nsau khi pass đầu hoàn tất."@, "Whisper with language hint fills this column\nafter the first pass completes."@),
        ("silence_placeholder"@, "(im lặng)"@, "(silence)"@),
        ("no_translation"@, "(không có)"@, "(none)"@),
        ("translating"@, "⏳  đang dịch…"@, "⏳  translating…"@),
        ("history_title"@, "Tìm + Lịch sử"@, "Search + History"@),
        ("history_empty"@, "Chưa có phiên nào được lưu."@, "No sessions saved yet."@),
        ("search_placeholder"@, "Tìm trong tất cả phiên ghi…"@, "Search all sessions…"@),
        ("export_btn"@, "📥  Xuất phiên mới nhất → Markdown"@, "📥  Export latest session → Markdown"@),
        ("tab_system"@, "System"@, "System"@),
        ("tab_voice_typing"@, "Voice Typing"@, "Voice Typing"@),
        ("tab_recording"@, "Recording"@, "Recording"@),
        ("tab_language"@, "Language"@, "Language"@),
        ("tab_dictionary"@, "Dictionary"@, "Dictionary"@),
        ("tab_notification"@, "Notification"@, "Notification"@),
        ("settings_title"@, "Cài đặt"@, "Settings"@),
        ("section_system"@, "System"@, "System"@),
        ("section_system_sub"@, "STT engine + thông tin ứng dụng"@, "STT engine + app info"@),
        ("section_recording"@, "Recording"@, "Recording"@),
        ("section_recording_sub"@, "Nguồn âm thanh, VAD, mô hình Whisper"@, "Audio source, VAD, Whisper model"@),
        ("section_language"@, "Language"@, "Language"@),
        ("section_language_sub"@, "Ngôn ngữ nguồn (Bản gốc) + đích (Bản dịch)"@, "Source language (Original) + target (Translation)"@),
        ("section_voice_typing"@, "Voice Typing"@, "Voice Typing"@),
        ("section_voice_typing_sub"@, "Nhấn tổ hợp phím bất cứ đâu để nói, văn bản sẽ tự động gõ vào ứng dụng đang focus"@, "Press the hotkey anywhere to speak; text is automatically typed into the focused app"@),
        ("stt_engine"@, "STT engine"@, "STT engine"@),
        ("audio_source"@, "Nguồn âm thanh"@, "Audio source"@),
        ("crash_reporting"@, "Báo cáo lỗi (Sentry)"@, "Error reporting (Sentry)"@),
        ("auto_update"@, "Cập nhật tự động"@, "Auto update"@),
        ("auto_summary"@, "Tóm tắt phiên (AI)"@, "Session summary (AI)"@),
        ("diarization"@, "Nhận diện người nói (chỉ Soniox)"@, "Speaker detection (Soniox only)"@),
        ("whisper_model"@, "Mô hình Whisper"@, "Whisper model"@),
        ("dictionary_title"@, "Từ điển tùy chỉnh"@, "Custom dictionary"@),
        ("language_card"@, "Ngôn ngữ"@, "Language"@),
        ("interface_language"@, "Ngôn ngữ giao diện / Interface language"@, "Interface language / Ngôn ngữ giao diện"@),
        ("locale_vi"@, "Tiếng Việt"@, "Tiếng Việt"@),
        ("locale_en"@, "English"@, "English"@),
        ("session_summary"@, "Tóm tắt phiên"@, "Session summary"@),
        ("session_content"@, "Nội dung phiên"@, "Session content"@),
        ("session_no_segments"@, "Chưa có đoạn nào được ghi."@, "No segments recorded yet."@),
        ("summary_idle"@, "Chưa có tóm tắt. Bật tự động tóm tắt hoặc nhấn Tạo lại."@, "No summary yet. Enable auto-summary or click Regenerate."@),
        ("summary_computing"@, "Đang tạo tóm tắt…"@, "Generating summary…"@),
        ("summary_needs_key"@, "Cần API key OpenAI — cấu hình trong Cài đặt → System."@, "OpenAI API key required — configure in Settings → System."@),
        ("btn_regenerate"@, "↺ Tạo lại"@, "↺ Regenerate"@),
        ("btn_copy"@, "📋 Sao chép"@, "📋 Copy"@),
        ("placeholder_coming"@, "Tính năng sẽ có ở bản kế tiếp."@, "Feature coming in a future release."@),
        ("restart_to_apply"@, "↻  Đã lưu — khởi động lại Vọng AI Recorder để áp dụng"@, "↻  Saved — restart Vọng AI Recorder to apply"@),
        ("toggle_on"@, "Đang bật"@, "On"@),
        ("toggle_off"@, "Đang tắt"@, "Off"@),
        ("btn_save"@, "💾  Lưu key"@, "💾  Save key"@),
        ("btn_check_now"@, "Kiểm tra ngay"@, "Check now"@),
        ("btn_add"@, "+ Thêm"@, "+ Add"@),
        ("api_key_label"@, "API key (lưu vào Keychain):"@, "API key (saved to Keychain):"@)
    ]
}

fn table_entries() -> (t: Vec<(&'static str, &'static str, &'static str)>)
    ensures
        t@.len() == translation_table().len(),
        forall|i: int|
            0 <= i < t@.len() ==> (#[trigger] t@[i]).0@ == translation_table()[i].0 && t@[i].1@
                == translation_table()[i].1 && t@[i].2@ == translation_table()[i].2,
{
    let mut t: Vec<(&'static str, &'static str, &'static str)> = Vec::new();
    t.push(("tap_to_record", "Nhấn để ghi", "Tap to record"));
    t.push(("recording_active", "● Đang ghi…  (nhấn để dừng)", "● Recording…  (tap to stop)"));
    t.push(("transcript_original", "Bản gốc", "Original"));
    t.push(("transcript_translated", "Bản dịch", "Translation"));
    t.push(("waiting_speech", "Đang chờ giọng nói…", "Waiting for speech…"));
    t.push(("col_hint_original", "Whisper auto-detect sẽ điền cột này ngay\nkhi mỗi utterance được nhận diện.", "Whisper auto-detect fills this column\nwhen each utterance is recognized."));
    t.push(("col_hint_translated", "Whisper với gợi ý tiếng Việt điền cột này\nsau khi pass đầu hoàn tất.", "Whisper with language hint fills this column\nafter the first pass completes."));
    t.push(("silence_placeholder", "(im lặng)", "(silence)"));
    t.push(("no_translation", "(không có)", "(none)"));
    t.push(("translating", "⏳  đang dịch…", "⏳  translating…"));
    t.push(("history_title", "Tìm + Lịch sử", "Search + History"));
    t.push(("history_empty", "Chưa có phiên nào được lưu.", "No sessions saved yet."));
    t.push(("search_placeholder", "Tìm trong tất cả phiên ghi…", "Search all sessions…"));
    t.push(("export_btn", "📥  Xuất phiên mới nhất → Markdown", "📥  Export latest session → Markdown"));
    t.push(("tab_system", "System", "System"));
    t.push(("tab_voice_typing", "Voice Typing", "Voice Typing"));
    t.push(("tab_recording", "Recording", "Recording"));
    t.push(("tab_language", "Language", "Language"));
    t.push(("tab_dictionary", "Dictionary", "Dictionary"));
    t.push(("tab_notification", "Notification", "Notification"));
    t.push(("settings_title", "Cài đặt", "Settings"));
    t.push(("section_system", "System", "System"));
    t.push(("section_system_sub", "STT engine + thông tin ứng dụng", "STT engine + app info"));
    t.push(("section_recording", "Recording", "Recording"));
    t.push(("section_recording_sub", "Nguồn âm thanh, VAD, mô hình Whisper", "Audio source, VAD, Whisper model"));
    t.push(("section_language", "Language", "Language"));
    t.push(("section_language_sub", "Ngôn ngữ nguồn (Bản gốc) + đích (Bản dịch)", "Source language (Original) + target (Translation)"));
    t.push(("section_voice_typing", "Voice Typing", "Voice Typing"));
    t.push(("section_voice_typing_sub", "Nhấn tổ hợp phím bất cứ đâu để nói, văn bản sẽ tự động gõ vào ứng dụng đang focus", "Press the hotkey anywhere to speak; text is automatically typed into the focused app"));
    t.push(("stt_engine", "STT engine", "STT engine"));
    t.push(("audio_source", "Nguồn âm thanh", "Audio source"));
    t.push(("crash_reporting", "Báo cáo lỗi (Sentry)", "Error reporting (Sentry)"));
    t.push(("auto_update", "Cập nhật tự động", "Auto update"));
    t.push(("auto_summary", "Tóm tắt phiên (AI)", "Session summary (AI)"));
    t.push(("diarization", "Nhận diện người nói (chỉ Soniox)", "Speaker detection (Soniox only)"));
    t.push(("whisper_model", "Mô hình Whisper", "Whisper model"));
    t.push(("dictionary_title", "Từ điển tùy chỉnh", "Custom dictionary"));
    t.push(("language_card", "Ngôn ngữ", "Language"));
    t.push(("interface_language", "Ngôn ngữ giao diện / Interface language", "Interface language / Ngôn ngữ giao diện"));
    t.push(("locale_vi", "Tiếng Việt", "Tiếng Việt"));
    t.push(("locale_en", "English", "English"));
    t.push(("session_summary", "Tóm tắt phiên", "Session summary"));
    t.push(("session_content", "Nội dung phiên", "Session content"));
    t.push(("session_no_segments", "Chưa có đoạn nào được ghi.", "No segments recorded yet."));
    t.push(("summary_idle", "Chưa có tóm tắt. Bật tự động tóm tắt hoặc nhấn Tạo lại.", "No summary yet. Enable auto-summary or click Regenerate."));
    t.push(("summary_computing", "Đang tạo tóm tắt…", "Generating summary…"));
    t.push(("summary_needs_key", "Cần API key OpenAI — cấu hình trong Cài đặt → System.", "OpenAI API key required — configure in Settings → System."));
    t.push(("btn_regenerate", "↺ Tạo lại", "↺ Regenerate"));
    t.push(("btn_copy", "📋 Sao chép", "📋 Copy"));
    t.push(("placeholder_coming", "Tính năng sẽ có ở bản kế tiếp.", "Feature coming in a future release."));
    t.push(("restart_to_apply", "↻  Đã lưu — khởi động lại Vọng AI Recorder để áp dụng", "↻  Saved — restart Vọng AI Recorder to apply"));
    t.push(("toggle_on", "Đang bật", "On"));
    t.push(("toggle_off", "Đang tắt", "Off"));
    t.push(("btn_save", "💾  Lưu key", "💾  Save key"));
    t.push(("btn_check_now", "Kiểm tra ngay", "Check now"));
    t.push(("btn_add", "+ Thêm", "+ Add"));
    t.push(("api_key_label", "API key (lưu vào Keychain):", "API key (saved to Keychain):"));
    t
}

/// Index of the first table row whose key is `key`, searching from `i`.
pub open spec fn first_row_with_key(table: Seq<(Seq<char>, Seq<char>, Seq<char>)>, key: Seq<char>, i: nat) -> Option<nat>
    decreases table.len() - i,
{
    if i >= table.len() {
        None
    } else if table[i as int].0 == key {
        Some(i)
    } else {
        first_row_with_key(table, key, i + 1)
    }
}

/// The text shown for `key` in `locale`: the row's text in that language,
/// or the key itself when no row has it.
pub open spec fn translate(locale: Locale, key: Seq<char>) -> Seq<char> {
    match first_row_with_key(translation_table(), key, 0) {
        Some(i) => match locale {
            Locale::Vi => translation_table()[i as int].1,
            Locale::En => translation_table()[i as int].2,
        },
        None => key,
    }
}

/// The interface strings for one locale.
pub struct Translations {
    locale: Locale,
    table: Vec<(&'static str, &'static str, &'static str)>,
}

impl Translations {
    pub closed spec fn wf(&self) -> bool {
        &&& self.table@.len() == translation_table().len()
        &&& forall|i: int|
            0 <= i < self.table@.len() ==> (#[trigger] self.table@[i]).0@ == translation_table()[i].0
                && self.table@[i].1@ == translation_table()[i].1 && self.table@[i].2@
                == translation_table()[i].2
    }

    pub closed spec fn spec_locale(&self) -> Locale {
        self.locale
    }

    /// The strings of `locale`.
    pub fn new(locale: Locale) -> (t: Self)
        ensures
            t.wf(),
            t.spec_locale() == locale,
    {
        Translations { locale, table: table_entries() }
    }

    /// The text for `key`; the key itself when the table lacks it.
    pub fn t<'a>(&self, key: &'a str) -> (r: &'a str)
        requires
            self.wf(),
        ensures
            r@ == translate(self.spec_locale(), key@),
    {
        let k = chars_of(key);
        let mut i: usize = 0;
        while i < self.table.len()
            invariant
                self.wf(),
                i <= self.table@.len(),
                k@ == key@,
                first_row_with_key(translation_table(), key@, 0) == first_row_with_key(translation_table(), key@, i as nat),
            decreases self.table@.len() - i,
        {
            let row = self.table[i];
            let rk = chars_of(row.0);
            if chars_equal(rk.as_slice(), k.as_slice()) {
                return match self.locale {
                    Locale::Vi => row.1,
                    Locale::En => row.2,
                };
            }
            i = i + 1;
        }
        key
    }

    /// The locale of these strings.
    pub fn locale(&self) -> (l: Locale)
        ensures
            l == self.spec_locale(),
    {
        self.locale
    }

    /// The same strings in another locale.
    pub fn with_locale(self, locale: Locale) -> (t: Self)
        requires
            self.wf(),
        ensures
            t.wf(),
            t.spec_locale() == locale,
    {
        Translations { locale, table: self.table }
    }
}

/// The last-viewed session recorded in its file's content (trimmed), or
/// `None` when the file is missing or holds no integer.
pub fn last_session_from(content: Option<&str>) -> (r: Option<i64>)
    ensures
        r == match content {
            Some(c) => crate::format::i64_of(trim(c@)),
            None => None,
        },
{
    match content {
        None => None,
        Some(c) => {
            let cs = chars_of(c);
            let t = trim_chars(cs.as_slice());
            crate::format::parse_i64(t.as_slice())
        },
    }
}

/// The content written to record the last-viewed session.
pub fn last_session_content(session_id: i64) -> (s: String)
    ensures
        s@ == crate::format::int_decimal(session_id as int),
{
    let mut s = String::new();
    crate::format::push_i64(&mut s, session_id);
    s
}

/// A recorded session id reads back unchanged.
pub proof fn lemma_last_session_roundtrip(session_id: i64)
    ensures
        crate::format::i64_of(trim(crate::format::int_decimal(session_id as int))) == Some(session_id),
{
    let s = crate::format::int_decimal(session_id as int);
    crate::format::lemma_int_decimal_parses_back(session_id);
    let m: nat = if session_id < 0 { (-(session_id as int)) as nat } else { session_id as nat };
    crate::format::lemma_decimal_digits(m);
    let d = crate::format::decimal(m);
    assert(48 <= (d.last() as u32) <= 57);
    assert(48 <= (d[0] as u32) <= 57);
    if session_id < 0 {
        assert(s.last() == d.last());
    }
    crate::text::lemma_trim_of_unpadded(s);
}

} // verus!
