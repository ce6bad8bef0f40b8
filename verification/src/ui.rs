//! Logic behind the user interface: speech-recognition engines and their
//! labels, engine-swap errors, device and search-result labels, the live
//! transcript list, recording settings and the confirmation dialog.
use crate::consent::{contains_seq, str_contains};
use crate::format::{decimal, push_char, push_i64, push_padded, push_str, push_u64, string_from_chars, tdiv, zero_pad};
use crate::storage::SearchHit;
use crate::stt::{opt_view, text_or_empty, TranscriptEvent};
use crate::text::{chars_equal, chars_of, has_prefix, starts_with_chars, trim, trim_chars};
use crate::toast::ToastSeverity;
use crate::vad::VadConfig;
use vstd::prelude::*;

verus! {

// ---------------------------------------------------------------- engines

/// The speech-recognition engines.
#[derive(Debug, Clone, Copy, PartialEq, Eq, Structural)]
pub enum ProviderMode {
    LocalWhisper,
    SonioxCloud,
    OpenAIRealtime,
}

pub open spec fn provider_id(m: ProviderMode) -> Seq<char> {
    match m {
        ProviderMode::LocalWhisper => "local-whisper"@,
        ProviderMode::SonioxCloud => "soniox"@,
        ProviderMode::OpenAIRealtime => "openai-realtime"@,
    }
}

pub open spec fn provider_of_id(s: Seq<char>) -> Option<ProviderMode> {
    if s == "local-whisper"@ {
        Some(ProviderMode::LocalWhisper)
    } else if s == "soniox"@ {
        Some(ProviderMode::SonioxCloud)
    } else if s == "openai-realtime"@ {
        Some(ProviderMode::OpenAIRealtime)
    } else {
        None
    }
}

fn same_text(a: &str, b: &str) -> (r: bool)
    ensures
        r == (a@ == b@),
{
    let x = chars_of(a);
    let y = chars_of(b);
    chars_equal(x.as_slice(), y.as_slice())
}

impl Default for ProviderMode {
    fn default() -> (m: Self)
        ensures
            m == ProviderMode::LocalWhisper,
    {
        ProviderMode::LocalWhisper
    }
}

impl ProviderMode {
    /// Stable identifier, as stored in the engine file.
    pub fn id(self) -> (s: &'static str)
        ensures
            s@ == provider_id(self),
    {
        match self {
            ProviderMode::LocalWhisper => "local-whisper",
            ProviderMode::SonioxCloud => "soniox",
            ProviderMode::OpenAIRealtime => "openai-realtime",
        }
    }

    /// The engine an identifier names.
    pub fn from_id(s: &str) -> (m: Option<Self>)
        ensures
            m == provider_of_id(s@),
    {
        if same_text(s, "local-whisper") {
            Some(ProviderMode::LocalWhisper)
        } else if same_text(s, "soniox") {
            Some(ProviderMode::SonioxCloud)
        } else if same_text(s, "openai-realtime") {
            Some(ProviderMode::OpenAIRealtime)
        } else {
            None
        }
    }
}

/// An engine's identifier names that engine.
pub proof fn lemma_provider_id_roundtrip(m: ProviderMode)
    ensures
        provider_of_id(provider_id(m)) == Some(m),
{
    reveal_strlit("local-whisper");
    reveal_strlit("soniox");
    reveal_strlit("openai-realtime");
    assert("local-whisper"@.len() == 13);
    assert("soniox"@.len() == 6);
    assert("openai-realtime"@.len() == 15);
    assert("soniox"@ != "local-whisper"@);
    assert("openai-realtime"@ != "local-whisper"@);
    assert("openai-realtime"@ != "soniox"@);
}

/// The engine recorded in the engine file's content (trimmed), the default
/// engine when the file is missing or names none.
pub fn provider_mode_from_file(content: Option<&str>) -> (m: ProviderMode)
    ensures
        m == match content {
            Some(c) => match provider_of_id(trim(c@)) {
                Some(p) => p,
                None => ProviderMode::LocalWhisper,
            },
            None => ProviderMode::LocalWhisper,
        },
{
    match content {
        Some(c) => {
            let cs = chars_of(c);
            let t = trim_chars(cs.as_slice());
            let ts = string_from_chars(t.as_slice());
            match ProviderMode::from_id(ts.as_str()) {
                Some(p) => p,
                None => ProviderMode::default(),
            }
        },
        None => ProviderMode::default(),
    }
}

/// Label of an engine in the engine picker.
pub fn provider_label(mode: ProviderMode) -> (s: &'static str)
    ensures
        s@ == match mode {
            ProviderMode::LocalWhisper => "🧠  Whisper local (offline)"@,
            ProviderMode::SonioxCloud => "☁  Soniox (BYOK, word-streaming)"@,
            ProviderMode::OpenAIRealtime => "☁  OpenAI Realtime (BYOK, WIP)"@,
        },
{
    match mode {
        ProviderMode::LocalWhisper => "🧠  Whisper local (offline)",
        ProviderMode::SonioxCloud => "☁  Soniox (BYOK, word-streaming)",
        ProviderMode::OpenAIRealtime => "☁  OpenAI Realtime (BYOK, WIP)",
    }
}

/// The engine a picker label names, by the words it contains.
pub fn parse_provider_label(s: &str) -> (m: Option<ProviderMode>)
    ensures
        m == if contains_seq(s@, "Whisper local"@) {
            Some(ProviderMode::LocalWhisper)
        } else if contains_seq(s@, "Soniox"@) {
            Some(ProviderMode::SonioxCloud)
        } else if contains_seq(s@, "OpenAI"@) {
            Some(ProviderMode::OpenAIRealtime)
        } else {
            None
        },
{
    if str_contains(s, "Whisper local") {
        Some(ProviderMode::LocalWhisper)
    } else if str_contains(s, "Soniox") {
        Some(ProviderMode::SonioxCloud)
    } else if str_contains(s, "OpenAI") {
        Some(ProviderMode::OpenAIRealtime)
    } else {
        None
    }
}

/// The engine's Vietnamese display name.
pub fn provider_vi_name(mode: ProviderMode) -> (s: &'static str)
    ensures
        s@ == match mode {
            ProviderMode::LocalWhisper => "Whisper Local"@,
            ProviderMode::SonioxCloud => "Soniox"@,
            ProviderMode::OpenAIRealtime => "OpenAI Realtime"@,
        },
{
    match mode {
        ProviderMode::LocalWhisper => "Whisper Local",
        ProviderMode::SonioxCloud => "Soniox",
        ProviderMode::OpenAIRealtime => "OpenAI Realtime",
    }
}

/// Short engine label of a stored session's provider id.
pub fn short_provider_label(provider: &str) -> (s: &'static str)
    ensures
        s@ == if provider@ == "soniox"@ {
            "Soniox"@
        } else if provider@ == "openai-realtime"@ {
            "OpenAI"@
        } else {
            "Whisper"@
        },
{
    if same_text(provider, "soniox") {
        "Soniox"
    } else if same_text(provider, "openai-realtime") {
        "OpenAI"
    } else {
        "Whisper"
    }
}

/// Why swapping the engine failed.
#[derive(Debug, PartialEq, Eq)]
pub enum HotswapError {
    /// The user cancelled in the confirmation dialog.
    Cancelled,
    /// The old engine did not stop in time.
    JoinTimeout,
    /// The new engine could not start.
    SpawnFailed(String),
    /// The engine changed but saving the choice failed.
    PersistFailed(String),
}

impl HotswapError {
    /// Vietnamese toast text.
    pub fn to_toast_message(&self) -> (s: &'static str)
        ensures
            s@ == match *self {
                HotswapError::Cancelled => "Đã huỷ đổi engine"@,
                HotswapError::JoinTimeout => "Engine cũ không dừng được — thử lại"@,
                HotswapError::SpawnFailed(_) => "Khởi động engine mới thất bại"@,
                HotswapError::PersistFailed(_) => "Engine đã đổi nhưng lưu cấu hình thất bại"@,
            },
    {
        match self {
            HotswapError::Cancelled => "Đã huỷ đổi engine",
            HotswapError::JoinTimeout => "Engine cũ không dừng được — thử lại",
            HotswapError::SpawnFailed(_) => "Khởi động engine mới thất bại",
            HotswapError::PersistFailed(_) => "Engine đã đổi nhưng lưu cấu hình thất bại",
        }
    }

    /// Toast severity: information for a cancel, a warning when only saving
    /// failed, an error otherwise.
    pub fn toast_severity(&self) -> (s: ToastSeverity)
        ensures
            s == match *self {
                HotswapError::Cancelled => ToastSeverity::Info,
                HotswapError::PersistFailed(_) => ToastSeverity::Warn,
                _ => ToastSeverity::Error,
            },
    {
        match self {
            HotswapError::Cancelled => ToastSeverity::Info,
            HotswapError::PersistFailed(_) => ToastSeverity::Warn,
            _ => ToastSeverity::Error,
        }
    }
}

/// What a swap request does before any work: nothing when the engine is
/// already running; ask the user first when a recording is in progress.
#[derive(Debug, Clone, Copy, PartialEq, Eq, Structural)]
pub enum SwapPlan {
    NoOp,
    Confirm,
    Proceed,
}

/// Plans a swap request.
pub fn plan_swap(current: ProviderMode, requested: ProviderMode, recording: bool) -> (p: SwapPlan)
    ensures
        p == if current == requested {
            SwapPlan::NoOp
        } else if recording {
            SwapPlan::Confirm
        } else {
            SwapPlan::Proceed
        },
{
    if current == requested {
        SwapPlan::NoOp
    } else if recording {
        SwapPlan::Confirm
    } else {
        SwapPlan::Proceed
    }
}

/// Where an engine swap stands.
#[derive(Debug, PartialEq, Eq)]
pub enum SwapState {
    /// Waiting for the user's answer (a recording is in progress).
    Asking,
    /// Waiting for the old engine to stop.
    Stopping,
    /// Waiting for the new engine to start.
    Starting,
    /// Waiting for the choice to be saved.
    Saving,
    /// Finished, with the swap's outcome.
    Finished(Result<(), HotswapError>),
}

/// What the swap learns at each stage.
#[derive(Debug)]
pub enum SwapInput {
    /// The user's answer in the confirmation dialog.
    Answer(bool),
    /// Whether the old engine stopped within the five seconds allowed.
    OldStopped(bool),
    /// Whether the new engine started, or why not.
    NewStarted(Result<(), String>),
    /// Whether the choice was saved, or why not.
    Saved(Result<(), String>),
}

/// How a swap request starts: at once finished when the engine is
/// already the requested one; asking the user while recording; else
/// stopping the old engine.
pub fn swap_begin(current: ProviderMode, requested: ProviderMode, recording: bool) -> (s: SwapState)
    ensures
        s == match plan_swap_spec(current, requested, recording) {
            SwapPlan::NoOp => SwapState::Finished(Ok(())),
            SwapPlan::Confirm => SwapState::Asking,
            SwapPlan::Proceed => SwapState::Stopping,
        },
{
    match plan_swap(current, requested, recording) {
        SwapPlan::NoOp => SwapState::Finished(Ok(())),
        SwapPlan::Confirm => SwapState::Asking,
        SwapPlan::Proceed => SwapState::Stopping,
    }
}

/// The plan `plan_swap` makes.
pub open spec fn plan_swap_spec(current: ProviderMode, requested: ProviderMode, recording: bool) -> SwapPlan {
    if current == requested {
        SwapPlan::NoOp
    } else if recording {
        SwapPlan::Confirm
    } else {
        SwapPlan::Proceed
    }
}

/// One step of a swap: a yes goes on to stopping the old engine (the
/// recording stops), a no cancels; the old engine not stopping in time
/// fails the swap; a new engine that does not start fails it with its
/// reason; a failed save ends it with the reason (the new engine keeps
/// running); a save ends it well. An input that does not belong to the
/// stage leaves the swap as it is.
pub fn swap_next(state: SwapState, input: SwapInput) -> (s: SwapState)
    ensures
        match (state, input) {
            (SwapState::Asking, SwapInput::Answer(yes)) => s == if yes {
                SwapState::Stopping
            } else {
                SwapState::Finished(Err(HotswapError::Cancelled))
            },
            (SwapState::Stopping, SwapInput::OldStopped(ok)) => s == if ok {
                SwapState::Starting
            } else {
                SwapState::Finished(Err(HotswapError::JoinTimeout))
            },
            (SwapState::Starting, SwapInput::NewStarted(r)) => match r {
                Ok(()) => s == SwapState::Saving,
                Err(e) => s matches SwapState::Finished(Err(HotswapError::SpawnFailed(m))) && m@ == e@,
            },
            (SwapState::Saving, SwapInput::Saved(r)) => match r {
                Ok(()) => s == SwapState::Finished(Ok(())),
                Err(e) => s matches SwapState::Finished(Err(HotswapError::PersistFailed(m))) && m@ == e@,
            },
            (st, _) => s == st,
        },
{
    match (state, input) {
        (SwapState::Asking, SwapInput::Answer(yes)) => if yes {
            SwapState::Stopping
        } else {
            SwapState::Finished(Err(HotswapError::Cancelled))
        },
        (SwapState::Stopping, SwapInput::OldStopped(ok)) => if ok {
            SwapState::Starting
        } else {
            SwapState::Finished(Err(HotswapError::JoinTimeout))
        },
        (SwapState::Starting, SwapInput::NewStarted(r)) => match r {
            Ok(()) => SwapState::Saving,
            Err(e) => SwapState::Finished(Err(HotswapError::SpawnFailed(e))),
        },
        (SwapState::Saving, SwapInput::Saved(r)) => match r {
            Ok(()) => SwapState::Finished(Ok(())),
            Err(e) => SwapState::Finished(Err(HotswapError::PersistFailed(e))),
        },
        (st, _) => st,
    }
}

/// The toast after a successful swap: `Đã đổi engine sang ` and the
/// engine's Vietnamese name.
pub fn swap_success_toast(mode: ProviderMode) -> (m: String)
    ensures
        m@ == "Đã đổi engine sang "@ + match mode {
            ProviderMode::LocalWhisper => "Whisper Local"@,
            ProviderMode::SonioxCloud => "Soniox"@,
            ProviderMode::OpenAIRealtime => "OpenAI Realtime"@,
        },
{
    let mut m = String::new();
    push_str(&mut m, "Đã đổi engine sang ");
    push_str(&mut m, provider_vi_name(mode));
    m
}

// ---------------------------------------------------------------- audio labels

/// Input or output device.
#[derive(Debug, Clone, Copy, PartialEq, Eq, Structural)]
pub enum DeviceKind {
    Input,
    Output,
}

/// A device for the source picker.
#[derive(Debug)]
pub struct DeviceInfo {
    pub name: String,
    pub is_default: bool,
    pub kind: DeviceKind,
}

/// Where recorded audio comes from.
#[derive(Debug, Clone, Copy, PartialEq, Eq, Structural)]
pub enum AudioSource {
    Microphone,
    LoopbackMacOs,
    Mixed,
}

impl AudioSource {
    /// Stable token for logs and storage.
    pub fn as_str(&self) -> (s: &'static str)
        ensures
            s@ == match *self {
                AudioSource::Microphone => "mic"@,
                AudioSource::LoopbackMacOs => "loopback"@,
                AudioSource::Mixed => "mixed"@,
            },
    {
        match self {
            AudioSource::Microphone => "mic",
            AudioSource::LoopbackMacOs => "loopback",
            AudioSource::Mixed => "mixed",
        }
    }
}

/// Label of a device in the source picker: an icon, two spaces, the name,
/// and a suffix for loopback and for the default microphone.
pub fn format_device_label(d: &DeviceInfo) -> (s: String)
    ensures
        s@ == match d.kind {
            DeviceKind::Input => "🎙"@,
            DeviceKind::Output => "🔊"@,
        } + "  "@ + d.name@ + match (d.kind, d.is_default) {
            (DeviceKind::Output, _) => " (loopback)"@,
            (DeviceKind::Input, true) => " (mặc định)"@,
            (DeviceKind::Input, false) => ""@,
        },
{
    let mut s = String::new();
    match d.kind {
        DeviceKind::Input => push_str(&mut s, "🎙"),
        DeviceKind::Output => push_str(&mut s, "🔊"),
    }
    push_str(&mut s, "  ");
    push_str(&mut s, d.name.as_str());
    match (d.kind, d.is_default) {
        (DeviceKind::Output, _) => push_str(&mut s, " (loopback)"),
        (DeviceKind::Input, true) => push_str(&mut s, " (mặc định)"),
        (DeviceKind::Input, false) => push_str(&mut s, ""),
    }
    s
}

/// Source rate, channel count and read size of the resampler.
#[derive(Debug, Clone, Copy, PartialEq, Eq)]
pub struct ResampleConfig {
    pub source_rate: u32,
    pub source_channels: u16,
    pub read_chunk_size: usize,
}

impl Default for ResampleConfig {
    fn default() -> (c: Self)
        ensures
            c.source_rate == 48_000,
            c.source_channels == 2,
            c.read_chunk_size == 2048,
    {
        ResampleConfig { source_rate: 48_000, source_channels: 2, read_chunk_size: 2048 }
    }
}

/// `s` with every backslash and double quote escaped by a backslash.
pub open spec fn json_escaped(s: Seq<char>) -> Seq<char>
    decreases s.len(),
{
    if s.len() == 0 {
        s
    } else {
        let rest = json_escaped(s.drop_last());
        if s.last() == '\\' || s.last() == '"' {
            rest + seq!['\\', s.last()]
        } else {
            rest.push(s.last())
        }
    }
}

/// Escapes a device name for the small JSON blob it is stored in.
pub fn sanitize_json(s: &str) -> (r: String)
    ensures
        r@ == json_escaped(s@),
{
    let cs = chars_of(s);
    let mut r = String::new();
    let mut i: usize = 0;
    while i < cs.len()
        invariant
            i <= cs@.len(),
            cs@ == s@,
            r@ == json_escaped(cs@.take(i as int)),
        decreases cs@.len() - i,
    {
        proof {
            assert(cs@.take(i + 1).drop_last() =~= cs@.take(i as int));
            assert(cs@.take(i + 1).last() == cs@[i as int]);
        }
        let c = cs[i];
        if c == '\\' || c == '"' {
            push_char(&mut r, '\\');
        }
        push_char(&mut r, c);
        proof {
            assert(r@ =~= json_escaped(cs@.take(i + 1)));
        }
        i = i + 1;
    }
    proof {
        assert(cs@.take(cs@.len() as int) =~= cs@);
    }
    r
}

// ---------------------------------------------------------------- search results

/// `s` with every occurrence of `p` removed, scanning left to right.
pub open spec fn without(s: Seq<char>, p: Seq<char>) -> Seq<char>
    decreases s.len(),
{
    if p.len() == 0 || s.len() == 0 {
        s
    } else if p.len() <= s.len() && s.subrange(0, p.len() as int) == p {
        without(s.subrange(p.len() as int, s.len() as int), p)
    } else {
        seq![s[0]] + without(s.drop_first(), p)
    }
}

fn remove_all(s: &[char], p: &[char]) -> (r: Vec<char>)
    ensures
        r@ == without(s@, p@),
    decreases s@.len(),
{
    if p.len() == 0 || s.len() == 0 {
        let mut v: Vec<char> = Vec::new();
        v.extend_from_slice(s);
        proof {
            assert(v@ =~= s@);
        }
        return v;
    }
    let n = s.len();
    if crate::text::starts_with_chars(s, p) {
        let rest = &s[p.len()..n];
        proof {
            assert(rest@ =~= s@.subrange(p@.len() as int, s@.len() as int));
        }
        remove_all(rest, p)
    } else {
        let rest = &s[1..n];
        proof {
            assert(rest@ =~= s@.drop_first());
        }
        let tail = remove_all(rest, p);
        let mut v: Vec<char> = Vec::new();
        v.push(s[0]);
        let mut t = tail;
        v.append(&mut t);
        proof {
            assert(v@ =~= seq![s@[0]] + without(s@.drop_first(), p@));
        }
        v
    }
}

/// One search-result line: session, language (`?` when unknown) and the
/// snippet without its `<b>` markup, trimmed.
pub open spec fn search_hit_line(h: SearchHit) -> Seq<char> {
    "  •  #"@ + crate::format::int_decimal(h.session_id as int) + " · "@ + match h.language {
        Some(l) => l@,
        None => "?"@,
    } + " · "@ + trim(without(without(h.snippet@, "<b>"@), "</b>"@))
}

/// Formats one search hit.
pub fn format_search_hit_line(h: &SearchHit) -> (s: String)
    ensures
        s@ == search_hit_line(*h),
{
    let cs = chars_of(h.snippet.as_str());
    let open = chars_of("<b>");
    let close = chars_of("</b>");
    let a = remove_all(cs.as_slice(), open.as_slice());
    let b = remove_all(a.as_slice(), close.as_slice());
    let t = trim_chars(b.as_slice());
    let mut s = String::new();
    push_str(&mut s, "  •  #");
    push_i64(&mut s, h.session_id);
    push_str(&mut s, " · ");
    match &h.language {
        Some(l) => push_str(&mut s, l.as_str()),
        None => push_str(&mut s, "?"),
    }
    push_str(&mut s, " · ");
    let ts = string_from_chars(t.as_slice());
    push_str(&mut s, ts.as_str());
    proof {
        assert(s@ =~= search_hit_line(*h));
    }
    s
}

/// The result lines of a search, one per hit, joined by newlines.
pub open spec fn hit_lines(hs: Seq<SearchHit>) -> Seq<char>
    decreases hs.len(),
{
    if hs.len() == 0 {
        Seq::<char>::empty()
    } else if hs.len() == 1 {
        search_hit_line(hs[0])
    } else {
        hit_lines(hs.drop_last()) + seq!['\n'] + search_hit_line(hs.last())
    }
}

/// Text of the search panel for a query and the search's outcome (its
/// hits, or the error's message).
pub open spec fn search_panel_text(query: Seq<char>, outcome: Result<Seq<SearchHit>, Seq<char>>) -> Seq<char> {
    match outcome {
        Ok(hs) => if hs.len() == 0 {
            "  (Không tìm thấy kết quả cho '"@ + query + "')"@
        } else {
            "  🔎 "@ + decimal(hs.len()) + " kết quả khớp '"@ + query + "'"@ + seq!['\n'] + hit_lines(hs)
        },
        Err(e) => "  (lỗi tìm: "@ + e + ")"@,
    }
}

/// Formats the outcome of a search for the search panel.
pub fn format_search_results(query: &str, outcome: &Result<Vec<SearchHit>, String>) -> (s: String)
    ensures
        s@ == search_panel_text(query@, match outcome {
            Ok(hs) => Ok(hs@),
            Err(e) => Err(e@),
        }),
{
    let mut s = String::new();
    match outcome {
        Ok(hits) => {
            if hits.len() == 0 {
                push_str(&mut s, "  (Không tìm thấy kết quả cho '");
                push_str(&mut s, query);
                push_str(&mut s, "')");
            } else {
                push_str(&mut s, "  🔎 ");
                push_u64(&mut s, hits.len() as u64);
                push_str(&mut s, " kết quả khớp '");
                push_str(&mut s, query);
                push_str(&mut s, "'");
                push_char(&mut s, '\n');
                let ghost head = s@;
                let mut i: usize = 0;
                while i < hits.len()
                    invariant
                        i <= hits@.len(),
                        s@ == head + hit_lines(hits@.take(i as int)),
                    decreases hits@.len() - i,
                {
                    proof {
                        assert(hits@.take(i + 1).drop_last() =~= hits@.take(i as int));
                        assert(hits@.take(i + 1).last() == hits@[i as int]);
                    }
                    if i > 0 {
                        push_char(&mut s, '\n');
                    }
                    let line = format_search_hit_line(&hits[i]);
                    push_str(&mut s, line.as_str());
                    proof {
                        if i == 0 {
                            assert(hits@.take(1) =~= seq![hits@[0]]);
                        }
                        assert(s@ =~= head + hit_lines(hits@.take(i + 1)));
                    }
                    i = i + 1;
                }
                proof {
                    assert(hits@.take(hits@.len() as int) =~= hits@);
                }
            }
        },
        Err(e) => {
            push_str(&mut s, "  (lỗi tìm: ");
            push_str(&mut s, e.as_str());
            push_str(&mut s, ")");
        },
    }
    s
}

// ---------------------------------------------------------------- sizes and times

/// Size label of a model file below one gigabyte: whole mebibytes from
/// one megabyte on, else whole kibibytes. Larger sizes are shown with a
/// decimal fraction of gibibytes, which the application formats.
pub fn format_model_size(bytes: u64) -> (s: Option<String>)
    ensures
        match s {
            None => bytes >= 1_000_000_000,
            Some(t) => bytes < 1_000_000_000 && t@ == if bytes >= 1_000_000 {
                decimal((bytes / 1_048_576) as nat) + " MB"@
            } else {
                decimal((bytes / 1024) as nat) + " KB"@
            },
        },
{
    if bytes >= 1_000_000_000 {
        return None;
    }
    let mut s = String::new();
    if bytes >= 1_000_000 {
        push_u64(&mut s, bytes / 1_048_576);
        push_str(&mut s, " MB");
    } else {
        push_u64(&mut s, bytes / 1024);
        push_str(&mut s, " KB");
    }
    Some(s)
}

/// `M:SS` label of a segment start (negative times read as zero).
pub open spec fn segment_time_label(ms: i64) -> Seq<char> {
    let q = tdiv(ms as int, 1000);
    let secs: nat = if q < 0 { 0 } else { q as nat };
    decimal(secs / 60) + seq![':'] + zero_pad(decimal(secs % 60), 2)
}

/// Formats a segment start as `M:SS`.
pub fn format_ms_as_timestamp(ms: i64) -> (s: String)
    ensures
        s@ == segment_time_label(ms),
{
    let (q, _) = crate::format::div_rem_i64(ms, 1000);
    let secs: u64 = if q < 0 { 0 } else { q as u64 };
    let mut s = String::new();
    push_u64(&mut s, secs / 60);
    push_char(&mut s, ':');
    push_padded(&mut s, secs % 60, 2);
    s
}

/// Seconds the local wall clock (Indochina Time) is ahead of UTC.
pub const ICT_OFFSET_SECS: u64 = 7 * 3600;

/// `HH:MM` wall-clock label (Indochina Time) of a Unix time in seconds.
pub open spec fn wall_clock_label(now_secs: nat) -> Seq<char> {
    let local = (now_secs + ICT_OFFSET_SECS as nat) % 86400;
    zero_pad(decimal(local / 3600), 2) + seq![':'] + zero_pad(decimal((local % 3600) / 60), 2)
}

/// Formats the wall-clock time of a transcript line.
pub fn format_wall_clock(now_secs: u64) -> (s: String)
    requires
        now_secs <= u64::MAX - ICT_OFFSET_SECS,
    ensures
        s@ == wall_clock_label(now_secs as nat),
{
    let local = (now_secs + ICT_OFFSET_SECS) % 86400;
    let mut s = String::new();
    push_padded(&mut s, local / 3600, 2);
    push_char(&mut s, ':');
    push_padded(&mut s, (local % 3600) / 60, 2);
    s
}

// ---------------------------------------------------------------- live transcript

/// Most lines the live transcript keeps.
pub const TRANSCRIPT_MAX_LINES: usize = 200;

/// One line of the live transcript.
#[derive(Debug)]
pub struct TranscriptStreamLine {
    pub seq: i32,
    pub time: String,
    pub lang: String,
    pub text: String,
    pub original_lang: String,
    pub original_text: String,
    pub duration_ms: i32,
    pub translation_done: bool,
}

/// The last line numbered `seq`, if any.
pub open spec fn last_line_with_seq(lines: Seq<TranscriptStreamLine>, seq: i32) -> Option<int>
    decreases lines.len(),
{
    if lines.len() == 0 {
        None
    } else if lines.last().seq == seq {
        Some(lines.len() - 1)
    } else {
        last_line_with_seq(lines.drop_last(), seq)
    }
}

proof fn lemma_last_line_in_range(lines: Seq<TranscriptStreamLine>, seq: i32)
    ensures
        match last_line_with_seq(lines, seq) {
            Some(i) => 0 <= i < lines.len() && lines[i].seq == seq,
            None => true,
        },
    decreases lines.len(),
{
    if lines.len() > 0 && lines.last().seq != seq {
        lemma_last_line_in_range(lines.drop_last(), seq);
        match last_line_with_seq(lines.drop_last(), seq) {
            Some(i) => assert(lines[i] == lines.drop_last()[i]),
            None => {},
        }
    }
}

/// `new` and `idx` are what upserting the line of `seq` into `old` gives:
/// the last line numbered `seq` when there is one (nothing changes), else
/// a placeholder appended at `wall_time` with `initial_duration_ms` and
/// original language `?`, the oldest lines dropped beyond 200.
pub open spec fn upserted(
    old: Seq<TranscriptStreamLine>,
    seq: u64,
    initial_duration_ms: i32,
    wall_time: Seq<char>,
    new: Seq<TranscriptStreamLine>,
    idx: int,
) -> bool {
    match last_line_with_seq(old, seq as i32) {
        Some(i) => idx == i && new == old,
        None => {
            let all_len = old.len() + 1;
            let dropped = if all_len > TRANSCRIPT_MAX_LINES { all_len - TRANSCRIPT_MAX_LINES } else { 0 };
            &&& new.len() == all_len - dropped
            &&& idx == new.len() - 1
            &&& forall|k: int| 0 <= k < new.len() - 1 ==> #[trigger] new[k] == old[k + dropped]
            &&& new[idx].seq == seq as i32
            &&& new[idx].time@ == wall_time
            &&& new[idx].lang@.len() == 0
            &&& new[idx].text@.len() == 0
            &&& new[idx].original_lang@ == "?"@
            &&& new[idx].original_text@.len() == 0
            &&& new[idx].duration_ms == initial_duration_ms
            &&& !new[idx].translation_done
        },
    }
}

/// Finds the line of utterance `seq` in the live transcript, or appends a
/// placeholder for it (at `wall_time`, with `initial_duration_ms`, original
/// language `?`) and then keeps only the newest 200 lines. Returns the
/// line's index, for the caller to update it. Every call bumps the
/// transcript's change counter (wrapping), which the display polls.
pub fn upsert_line_for_seq(
    lines: &mut Vec<TranscriptStreamLine>,
    generation: &mut u64,
    seq: u64,
    initial_duration_ms: i32,
    wall_time: String,
) -> (idx: usize)
    ensures
        *final(generation) == (if *old(generation) == u64::MAX { 0 } else { (*old(generation) + 1) as u64 }),
        upserted(old(lines)@, seq, initial_duration_ms, wall_time@, final(lines)@, idx as int),
        idx < final(lines)@.len(),
{
    *generation = if *generation == u64::MAX { 0 } else { *generation + 1 };
    #[verifier::truncate]
    let key: i32 = seq as i32;
    let mut i: usize = lines.len();
    proof {
        assert(lines@.take(i as int) =~= lines@);
    }
    while i > 0
        invariant
            i <= lines@.len(),
            lines@ == old(lines)@,
            key == seq as i32,
            *generation == (if *old(generation) == u64::MAX { 0 } else { (*old(generation) + 1) as u64 }),
            last_line_with_seq(lines@, key) == last_line_with_seq(lines@.take(i as int), key),
        decreases i,
    {
        proof {
            let t = lines@.take(i as int);
            assert(t.drop_last() =~= lines@.take(i - 1));
            assert(t.last() == lines@[i - 1]);
        }
        if lines[i - 1].seq == key {
            proof {
                assert(key == seq as i32);
                assert(lines@.take(i as int).last().seq == key);
            }
            return i - 1;
        }
        i = i - 1;
    }
    proof {
        assert(lines@.take(0) =~= Seq::<TranscriptStreamLine>::empty());
    }
    let mut original_lang = String::new();
    push_str(&mut original_lang, "?");
    let line = TranscriptStreamLine {
        seq: key,
        time: wall_time,
        lang: String::new(),
        text: String::new(),
        original_lang,
        original_text: String::new(),
        duration_ms: initial_duration_ms,
        translation_done: false,
    };
    lines.push(line);
    if lines.len() > TRANSCRIPT_MAX_LINES {
        let drop_n = lines.len() - TRANSCRIPT_MAX_LINES;
        let mut kept: Vec<TranscriptStreamLine> = Vec::new();
        let n = lines.len();
        let mut moved: Vec<TranscriptStreamLine> = Vec::new();
        std::mem::swap(lines, &mut moved);
        let mut k: usize = 0;
        let ghost all = moved@;
        while moved.len() > 0
            invariant
                moved@.len() + k == n,
                all.len() == n,
                moved@ == all.subrange(k as int, n as int),
                kept@ == all.subrange(drop_n as int, if k < drop_n { drop_n as int } else { k as int }),
                drop_n < n,
            decreases moved@.len(),
        {
            let ghost before = moved@;
            let item = moved.remove(0);
            proof {
                assert(item == all[k as int]);
                assert(moved@ =~= all.subrange(k + 1, n as int));
            }
            if k >= drop_n {
                kept.push(item);
                proof {
                    assert(kept@ =~= all.subrange(drop_n as int, k + 1));
                }
            } else {
                proof {
                    assert(kept@ =~= all.subrange(drop_n as int, if k + 1 < drop_n { drop_n as int } else { (k + 1) as int }));
                }
            }
            k = k + 1;
        }
        *lines = kept;
    }
    lines.len() - 1
}

/// A language label, `?` when unknown.
pub open spec fn lang_or_unknown(lang: Option<Seq<char>>) -> Seq<char> {
    match lang {
        Some(l) => l,
        None => "?"@,
    }
}

fn copy_lang_or_unknown(lang: Option<&str>) -> (r: String)
    ensures
        r@ == lang_or_unknown(match lang { Some(l) => Some(l@), None => None }),
{
    let mut r = String::new();
    match lang {
        Some(l) => push_str(&mut r, l),
        None => push_str(&mut r, "?"),
    }
    r
}

impl TranscriptStreamLine {
    /// A partial result: its text becomes the line's original text, with
    /// its language (`?` when unknown).
    pub fn apply_partial(&mut self, text: &str, language: Option<&str>)
        ensures
            final(self).original_text@ == text@,
            final(self).original_lang@ == lang_or_unknown(match language { Some(l) => Some(l@), None => None }),
            final(self).seq == old(self).seq,
            final(self).time@ == old(self).time@,
            final(self).lang@ == old(self).lang@,
            final(self).text@ == old(self).text@,
            final(self).duration_ms == old(self).duration_ms,
            final(self).translation_done == old(self).translation_done,
    {
        let mut t = String::new();
        push_str(&mut t, text);
        self.original_text = t;
        self.original_lang = copy_lang_or_unknown(language);
    }

    /// A final first-pass result: it overrides the original text and
    /// language (`?` when unknown) and sets the utterance's duration.
    pub fn apply_final(&mut self, original_text: &str, original_language: Option<&str>, duration_ms: i32)
        ensures
            final(self).original_text@ == original_text@,
            final(self).original_lang@ == lang_or_unknown(
                match original_language { Some(l) => Some(l@), None => None },
            ),
            final(self).duration_ms == duration_ms,
            final(self).seq == old(self).seq,
            final(self).time@ == old(self).time@,
            final(self).lang@ == old(self).lang@,
            final(self).text@ == old(self).text@,
            final(self).translation_done == old(self).translation_done,
    {
        let mut t = String::new();
        push_str(&mut t, original_text);
        self.original_text = t;
        self.original_lang = copy_lang_or_unknown(original_language);
        self.duration_ms = duration_ms;
    }

    /// A final translation: it fills the translated text and its language
    /// (`?` when empty) and marks the line translated.
    pub fn apply_translation(&mut self, text: &str, target_lang: &str)
        ensures
            final(self).text@ == text@,
            final(self).lang@ == if target_lang@.len() == 0 { "?"@ } else { target_lang@ },
            final(self).translation_done,
            final(self).seq == old(self).seq,
            final(self).time@ == old(self).time@,
            final(self).original_lang@ == old(self).original_lang@,
            final(self).original_text@ == old(self).original_text@,
            final(self).duration_ms == old(self).duration_ms,
    {
        let mut t = String::new();
        push_str(&mut t, text);
        self.text = t;
        let mut l = String::new();
        if target_lang.is_empty() {
            push_str(&mut l, "?");
        } else {
            push_str(&mut l, target_lang);
        }
        self.lang = l;
        self.translation_done = true;
    }
}

/// Whether a result's text replaces the "latest transcript" banner: only
/// when something is left after trimming.
pub fn shows_as_latest(text: &str) -> (b: bool)
    ensures
        b == (trim(text@).len() > 0),
{
    let cs = chars_of(text);
    trim_chars(cs.as_slice()).len() > 0
}

/// A speech model file the model list shows: named `ggml-*.bin`.
pub open spec fn is_model_file(name: Seq<char>) -> bool {
    &&& has_prefix(name, "ggml-"@)
    &&& name.len() >= 4
    &&& name.subrange(name.len() - 4, name.len() as int) == ".bin"@
}

/// Whether a file in a models directory is a speech model (`ggml-*.bin`).
pub fn is_model_file_name(name: &str) -> (b: bool)
    ensures
        b == is_model_file(name@),
{
    let cs = chars_of(name);
    let pre = chars_of("ggml-");
    if !starts_with_chars(cs.as_slice(), pre.as_slice()) {
        return false;
    }
    let n = cs.len();
    if n < 4 {
        return false;
    }
    proof {
        reveal_strlit(".bin");
    }
    let b = cs[n - 4] == '.' && cs[n - 3] == 'b' && cs[n - 2] == 'i' && cs[n - 1] == 'n';
    proof {
        if b {
            assert(cs@.subrange(n - 4, n as int) =~= ".bin"@);
        } else {
            assert(cs@.subrange(n - 4, n as int) != ".bin"@) by {
                let t = cs@.subrange(n - 4, n as int);
                if t == ".bin"@ {
                    assert(t[0] == '.' && t[1] == 'b' && t[2] == 'i' && t[3] == 'n');
                }
            }
        }
    }
    b
}

// ---------------------------------------------------------------- live transcription status

/// The live status the interface shows beside the transcript.
#[derive(Debug)]
pub struct LiveStatus {
    /// The recognizer is connected.
    pub provider_online: bool,
    /// Final results received.
    pub utterance_count: u64,
    /// Sequence number of the latest final result.
    pub last_seq: u64,
    /// End of the latest final result, in milliseconds.
    pub last_duration_ms: u32,
    /// The latest non-blank text, for the banner.
    pub last_transcript: String,
    /// Its language (empty when unknown).
    pub last_language: String,
}

/// The live status as plain values.
pub struct LiveStatusView {
    pub provider_online: bool,
    pub utterance_count: u64,
    pub last_seq: u64,
    pub last_duration_ms: u32,
    pub last_transcript: Seq<char>,
    pub last_language: Seq<char>,
}

impl View for LiveStatus {
    type V = LiveStatusView;

    open spec fn view(&self) -> LiveStatusView {
        LiveStatusView {
            provider_online: self.provider_online,
            utterance_count: self.utterance_count,
            last_seq: self.last_seq,
            last_duration_ms: self.last_duration_ms,
            last_transcript: self.last_transcript@,
            last_language: self.last_language@,
        }
    }
}

impl LiveStatus {
    /// Offline, nothing received.
    pub fn new() -> (s: Self)
        ensures
            !s@.provider_online,
            s@.utterance_count == 0,
            s@.last_seq == 0,
            s@.last_duration_ms == 0,
            s@.last_transcript.len() == 0,
            s@.last_language.len() == 0,
    {
        LiveStatus {
            provider_online: false,
            utterance_count: 0,
            last_seq: 0,
            last_duration_ms: 0,
            last_transcript: String::new(),
            last_language: String::new(),
        }
    }
}

/// The banner shows a result's text and language unless the text is blank.
pub open spec fn with_banner(v: LiveStatusView, text: Seq<char>, lang: Seq<char>) -> LiveStatusView {
    if trim(text).len() > 0 {
        LiveStatusView { last_transcript: text, last_language: lang, ..v }
    } else {
        v
    }
}

/// The live status after an event: connection events set the online flag;
/// a final result counts one utterance (wrapping) and records its sequence
/// number and end; partial, final and final translated results update the
/// banner; errors and unfinished translations change nothing.
pub open spec fn live_after(v: LiveStatusView, ev: TranscriptEvent) -> LiveStatusView {
    match ev {
        TranscriptEvent::Connected => LiveStatusView { provider_online: true, ..v },
        TranscriptEvent::Disconnected => LiveStatusView { provider_online: false, ..v },
        TranscriptEvent::Partial { seq, text, language } => with_banner(v, text@, text_or_empty(language)),
        TranscriptEvent::Final { seq, text, language, speaker, start_ms, end_ms } => with_banner(
            LiveStatusView {
                utterance_count: if v.utterance_count == u64::MAX { 0 } else { (v.utterance_count + 1) as u64 },
                last_seq: seq,
                last_duration_ms: end_ms as u32,
                ..v
            },
            text@,
            text_or_empty(language),
        ),
        TranscriptEvent::Translation { seq, text, source_lang, target_lang, is_final } => if is_final {
            with_banner(v, text@, target_lang@)
        } else {
            v
        },
        TranscriptEvent::Error { code, message } => v,
    }
}

/// A final translation with visible text takes over the banner with the
/// translated text and its target language (not the source language); a
/// blank one leaves the banner as it was.
pub proof fn lemma_translation_banner_shows_target_language(
    v: LiveStatusView,
    seq: u64,
    text: String,
    source_lang: String,
    target_lang: String,
)
    ensures
        ({
            let after = live_after(v, TranscriptEvent::Translation { seq, text, source_lang, target_lang, is_final: true });
            &&& trim(text@).len() > 0 ==> after.last_transcript == text@ && after.last_language == target_lang@
            &&& trim(text@).len() == 0 ==> after.last_transcript == v.last_transcript && after.last_language == v.last_language
            &&& after.utterance_count == v.utterance_count
            &&& after.provider_online == v.provider_online
        }),
{
}

/// The transcript line an event touches, with the duration a new line
/// starts with: partial, final and final translated results have one.
pub open spec fn touched_line(ev: TranscriptEvent) -> Option<(u64, i32)> {
    match ev {
        TranscriptEvent::Partial { seq, .. } => Some((seq, 0i32)),
        TranscriptEvent::Final { seq, end_ms, .. } => Some((seq, end_ms as i32)),
        TranscriptEvent::Translation { seq, is_final, .. } => if is_final {
            Some((seq, 0i32))
        } else {
            None
        },
        _ => None,
    }
}

/// `b` is line `a` after the event: a partial or final result sets the
/// original text and language (and a final one the duration); a final
/// translation sets the translated text and language and marks it done.
pub open spec fn line_after(a: TranscriptStreamLine, b: TranscriptStreamLine, ev: TranscriptEvent) -> bool {
    &&& b.seq == a.seq
    &&& b.time@ == a.time@
    &&& match ev {
        TranscriptEvent::Partial { text, language, .. } => {
            &&& b.original_text@ == text@
            &&& b.original_lang@ == lang_or_unknown(opt_view(language))
            &&& b.lang@ == a.lang@ && b.text@ == a.text@
            &&& b.duration_ms == a.duration_ms && b.translation_done == a.translation_done
        },
        TranscriptEvent::Final { text, language, end_ms, .. } => {
            &&& b.original_text@ == text@
            &&& b.original_lang@ == lang_or_unknown(opt_view(language))
            &&& b.duration_ms == end_ms as i32
            &&& b.lang@ == a.lang@ && b.text@ == a.text@
            &&& b.translation_done == a.translation_done
        },
        TranscriptEvent::Translation { text, target_lang, .. } => {
            &&& b.text@ == text@
            &&& b.lang@ == (if target_lang@.len() == 0 { "?"@ } else { target_lang@ })
            &&& b.translation_done
            &&& b.original_text@ == a.original_text@ && b.original_lang@ == a.original_lang@
            &&& b.duration_ms == a.duration_ms
        },
        _ => false,
    }
}

/// `new` is `old` with the line of `seq` found or made (see `upserted`)
/// and then changed by the event (see `line_after`); no other line changes.
pub open spec fn upserted_then_changed(
    old: Seq<TranscriptStreamLine>,
    seq: u64,
    dur: i32,
    wall_time: Seq<char>,
    new: Seq<TranscriptStreamLine>,
    ev: TranscriptEvent,
) -> bool {
    exists|mid: Seq<TranscriptStreamLine>, idx: int|
        {
            &&& #[trigger] upserted(old, seq, dur, wall_time, mid, idx)
            &&& 0 <= idx < mid.len()
            &&& new.len() == mid.len()
            &&& (forall|k: int| 0 <= k < mid.len() && k != idx ==> #[trigger] new[k] == mid[k])
            &&& line_after(mid[idx], new[idx], ev)
        }
}

fn opt_str(o: &Option<String>) -> (r: Option<&str>)
    ensures
        match r {
            Some(x) => o.is_some() && x@ == o.unwrap()@,
            None => o.is_none(),
        },
{
    match o {
        Some(x) => Some(x.as_str()),
        None => None,
    }
}

fn copy_text_or_empty(o: &Option<String>) -> (r: String)
    ensures
        r@ == text_or_empty(*o),
{
    let mut r = String::new();
    match o {
        Some(x) => push_str(&mut r, x.as_str()),
        None => {},
    }
    r
}

fn set_banner(status: &mut LiveStatus, text: &str, lang: String)
    ensures
        final(status)@ == with_banner(old(status)@, text@, lang@),
{
    if shows_as_latest(text) {
        let mut t = String::new();
        push_str(&mut t, text);
        status.last_transcript = t;
        status.last_language = lang;
    }
}

/// Applies one event of the recognizer to the live status and the live
/// transcript (see `live_after`, `touched_line` and `line_after`); the
/// touched line is found or made as `upsert_line_for_seq` does, which also
/// bumps the change counter. Returns whether the event is a final
/// translation, which the recorder stores as a segment.
#[verifier::spinoff_prover]
#[verifier::rlimit(40)]
pub fn apply_transcript_event(
    status: &mut LiveStatus,
    lines: &mut Vec<TranscriptStreamLine>,
    generation: &mut u64,
    event: &TranscriptEvent,
    wall_time: String,
) -> (store: bool)
    ensures
        store == (*event matches TranscriptEvent::Translation { is_final, .. } && is_final),
        final(status)@ == live_after(old(status)@, *event),
        match touched_line(*event) {
            None => final(lines)@ == old(lines)@ && *final(generation) == *old(generation),
            Some((seq, dur)) => {
                &&& *final(generation) == (if *old(generation) == u64::MAX { 0 } else { (*old(generation) + 1) as u64 })
                &&& upserted_then_changed(old(lines)@, seq, dur, wall_time@, final(lines)@, *event)
            },
        },
{
    match event {
        TranscriptEvent::Connected => {
            status.provider_online = true;
            assert(touched_line(*event) is None);
            false
        },
        TranscriptEvent::Disconnected => {
            status.provider_online = false;
            assert(touched_line(*event) is None);
            false
        },
        TranscriptEvent::Error { .. } => {
            assert(touched_line(*event) is None);
            false
        },
        TranscriptEvent::Partial { seq, text, language } => {
            let idx = upsert_line_for_seq(lines, generation, *seq, 0, wall_time);
            let ghost mid = lines@;
            let mut line = lines.remove(idx);
            line.apply_partial(text.as_str(), opt_str(language));
            lines.insert(idx, line);
            proof {
                assert forall|k: int| 0 <= k < mid.len() && k != idx implies #[trigger] lines@[k] == mid[k] by {}
                assert(upserted(old(lines)@, *seq, 0i32, wall_time@, mid, idx as int));
                assert(0 <= idx < mid.len());
                assert(lines@.len() == mid.len());
                assert(line_after(mid[idx as int], lines@[idx as int], *event));
            }
            set_banner(status, text.as_str(), copy_text_or_empty(language));
            false
        },
        TranscriptEvent::Final { seq, text, language, end_ms, .. } => {
            status.utterance_count = if status.utterance_count == u64::MAX { 0 } else { status.utterance_count + 1 };
            status.last_seq = *seq;
            #[verifier::truncate]
            let d32: u32 = *end_ms as u32;
            status.last_duration_ms = d32;
            #[verifier::truncate]
            let di: i32 = *end_ms as i32;
            let idx = upsert_line_for_seq(lines, generation, *seq, di, wall_time);
            let ghost mid = lines@;
            let mut line = lines.remove(idx);
            line.apply_final(text.as_str(), opt_str(language), di);
            lines.insert(idx, line);
            proof {
                assert forall|k: int| 0 <= k < mid.len() && k != idx implies #[trigger] lines@[k] == mid[k] by {}
                assert(upserted(old(lines)@, *seq, di, wall_time@, mid, idx as int));
                assert(upserted_then_changed(old(lines)@, *seq, di, wall_time@, lines@, *event));
            }
            set_banner(status, text.as_str(), copy_text_or_empty(language));
            false
        },
        TranscriptEvent::Translation { seq, text, target_lang, is_final, .. } => {
            if !*is_final {
                assert(touched_line(*event) is None);
                return false;
            }
            let idx = upsert_line_for_seq(lines, generation, *seq, 0, wall_time);
            let ghost mid = lines@;
            let mut line = lines.remove(idx);
            line.apply_translation(text.as_str(), target_lang.as_str());
            lines.insert(idx, line);
            proof {
                assert forall|k: int| 0 <= k < mid.len() && k != idx implies #[trigger] lines@[k] == mid[k] by {}
                assert(upserted(old(lines)@, *seq, 0i32, wall_time@, mid, idx as int));
                assert(upserted_then_changed(old(lines)@, *seq, 0i32, wall_time@, lines@, *event));
            }
            let mut lang = String::new();
            push_str(&mut lang, target_lang.as_str());
            set_banner(status, text.as_str(), lang);
            true
        },
    }
}

// ---------------------------------------------------------------- recording settings

/// The hangover and maximum-length settings from the sliders' signed
/// values: negative values read as 0, then both are clamped as
/// `clamp_vad_timing` does.
pub fn vad_timing_from_sliders(hangover_ms: i32, max_duration_ms: i32) -> (r: (u32, u32))
    ensures
        ({
            let h: int = if hangover_ms < 0 { 0 } else { hangover_ms as int };
            let m: int = if max_duration_ms < 0 { 0 } else { max_duration_ms as int };
            &&& r.0 == if h < 100 { 100 } else if h > 800 { 800 } else { h }
            &&& r.1 == if m < 3000 { 3000 } else if m > 15000 { 15000 } else { m }
        }),
{
    let h: u32 = if hangover_ms < 0 { 0 } else { hangover_ms as u32 };
    let m: u32 = if max_duration_ms < 0 { 0 } else { max_duration_ms as u32 };
    clamp_vad_timing(h, m)
}

/// Hangover and maximum-length settings, clamped to the slider ranges
/// (100–800 ms and 3000–15000 ms).
pub fn clamp_vad_timing(hangover_ms: u32, max_duration_ms: u32) -> (r: (u32, u32))
    ensures
        r.0 == if hangover_ms < 100 { 100 } else if hangover_ms > 800 { 800 } else { hangover_ms },
        r.1 == if max_duration_ms < 3000 { 3000 } else if max_duration_ms > 15000 { 15000 } else { max_duration_ms },
{
    let h = if hangover_ms < 100 {
        100
    } else if hangover_ms > 800 {
        800
    } else {
        hangover_ms
    };
    let m = if max_duration_ms < 3000 {
        3000
    } else if max_duration_ms > 15000 {
        15000
    } else {
        max_duration_ms
    };
    (h, m)
}

/// The segmentation timing for the user's hangover and maximum length; the
/// other timings keep their defaults.
pub fn into_vad_config(hangover_ms: u32, max_duration_ms: u32) -> (c: VadConfig)
    ensures
        c.hangover_ms == hangover_ms,
        c.max_duration_ms == max_duration_ms,
        c.pre_roll_ms == 200,
        c.min_duration_ms == 200,
        c.partial_emit_ms == 1_500,
{
    let d = VadConfig::default();
    VadConfig {
        hangover_ms,
        max_duration_ms,
        pre_roll_ms: d.pre_roll_ms,
        min_duration_ms: d.min_duration_ms,
        partial_emit_ms: d.partial_emit_ms,
    }
}

// ---------------------------------------------------------------- confirmation dialog

/// The confirmation dialog as the interface shows it.
#[derive(Debug)]
pub struct DialogState {
    pub open: bool,
    pub title: String,
    pub body: String,
}

impl Default for DialogState {
    fn default() -> (d: Self)
        ensures
            !d.open,
            d.title@.len() == 0,
            d.body@.len() == 0,
    {
        DialogState { open: false, title: String::new(), body: String::new() }
    }
}

impl DialogState {
    /// Opens the dialog with a title and a body (replacing any open one).
    pub fn show(&mut self, title: &str, body: &str)
        ensures
            final(self).open,
            final(self).title@ == title@,
            final(self).body@ == body@,
    {
        let mut t = String::new();
        push_str(&mut t, title);
        let mut b = String::new();
        push_str(&mut b, body);
        self.open = true;
        self.title = t;
        self.body = b;
    }

    /// Closes the dialog, keeping its texts.
    pub fn close(&mut self)
        ensures
            !final(self).open,
            final(self).title@ == old(self).title@,
            final(self).body@ == old(self).body@,
    {
        self.open = false;
    }
}

} // verus!
