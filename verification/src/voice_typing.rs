//! Voice typing: a hotkey starts a short dictation whose text is typed into
//! the focused application. The library holds its states, its settings,
//! its error messages and the sanitizer that keeps control characters out
//! of synthetic keyboard input.
use crate::format::{push_char, push_str, string_from_chars};
use crate::toast::ToastSeverity;
use crate::text::{chars_of, is_control, is_control_char, trim, trim_chars};
use std::time::Instant;
use vstd::prelude::*;

verus! {

/// States of a voice-typing session:
/// `Idle -> Listening -> Transcribing -> Injecting -> Idle`.
#[derive(Debug, PartialEq, Eq)]
pub enum VoiceTypingState {
    /// Armed, no session running.
    Idle,
    /// The microphone is open since `started_at`.
    Listening { started_at: Instant },
    /// Speech recognition is running.
    Transcribing,
    /// The text is being typed.
    Injecting,
    /// A failure, cleared back to `Idle` once reported.
    Error(String),
}

impl VoiceTypingState {
    /// Stable token for the overlay.
    pub fn label(&self) -> (s: &'static str)
        ensures
            s@ == match *self {
                VoiceTypingState::Idle => "idle"@,
                VoiceTypingState::Listening { .. } => "listening"@,
                VoiceTypingState::Transcribing => "transcribing"@,
                VoiceTypingState::Injecting => "injecting"@,
                VoiceTypingState::Error(_) => "error"@,
            },
    {
        match self {
            VoiceTypingState::Idle => "idle",
            VoiceTypingState::Listening { .. } => "listening",
            VoiceTypingState::Transcribing => "transcribing",
            VoiceTypingState::Injecting => "injecting",
            VoiceTypingState::Error(_) => "error",
        }
    }

    /// True while a session runs (listening, transcribing or injecting).
    pub fn is_active(&self) -> (b: bool)
        ensures
            b == (*self is Listening || *self is Transcribing || *self is Injecting),
    {
        match self {
            VoiceTypingState::Listening { .. } => true,
            VoiceTypingState::Transcribing => true,
            VoiceTypingState::Injecting => true,
            _ => false,
        }
    }
}

/// A character survives sanitizing when it is a newline, a tab, or not a
/// control character.
pub open spec fn keeps_char(c: char) -> bool {
    c == '\n' || c == '\t' || !is_control_char(c)
}

/// The input without the control characters other than newline and tab.
pub open spec fn sanitized(s: Seq<char>) -> Seq<char> {
    s.filter(|c: char| keeps_char(c))
}

/// Removes the control characters that must never be typed (NUL, ESC,
/// backspace and every other C0/C1 control), keeping newlines and tabs.
pub fn sanitize_for_injection(input: &str) -> (r: String)
    ensures
        r@ == sanitized(input@),
{
    let cs = chars_of(input);
    let mut r = String::new();
    let mut i: usize = 0;
    while i < cs.len()
        invariant
            i <= cs@.len(),
            cs@ == input@,
            r@ == cs@.take(i as int).filter(|c: char| keeps_char(c)),
        decreases cs@.len() - i,
    {
        let c = cs[i];
        proof {
            reveal(Seq::filter);
            assert(cs@.take(i + 1).drop_last() =~= cs@.take(i as int));
            assert(cs@.take(i + 1).last() == c);
        }
        if c == '\n' || c == '\t' || !is_control(c) {
            push_char(&mut r, c);
        }
        i = i + 1;
    }
    proof {
        assert(cs@.take(cs@.len() as int) =~= cs@);
    }
    r
}

/// The text to type for `text`: `None` when nothing is left after
/// sanitizing (typing is then skipped and counts as success).
pub fn injection_payload(text: &str) -> (r: Option<String>)
    ensures
        match r {
            None => sanitized(text@).len() == 0,
            Some(s) => s@ == sanitized(text@) && s@.len() > 0,
        },
{
    let s = sanitize_for_injection(text);
    let n = chars_of(s.as_str());
    if n.len() == 0 {
        None
    } else {
        Some(s)
    }
}

/// Sanitizing leaves no control character but newline and tab, changes
/// nothing in a text that has none, and so changes nothing the second time.
pub proof fn lemma_sanitize_laws(s: Seq<char>)
    ensures
        forall|i: int| 0 <= i < sanitized(s).len() ==> keeps_char(#[trigger] sanitized(s)[i]),
        sanitized(sanitized(s)) == sanitized(s),
        (forall|i: int| 0 <= i < s.len() ==> keeps_char(#[trigger] s[i])) ==> sanitized(s) == s,
{
    let u = sanitized(s);
    assert forall|i: int| 0 <= i < u.len() implies keeps_char(#[trigger] u[i]) by {
        s.lemma_filter_pred(|c: char| keeps_char(c), i);
    }
    lemma_all_kept_is_fixed(u);
    if forall|i: int| 0 <= i < s.len() ==> keeps_char(#[trigger] s[i]) {
        lemma_all_kept_is_fixed(s);
    }
}

proof fn lemma_all_kept_is_fixed(s: Seq<char>)
    requires
        forall|i: int| 0 <= i < s.len() ==> keeps_char(#[trigger] s[i]),
    ensures
        sanitized(s) == s,
    decreases s.len(),
{
    reveal(Seq::filter);
    if s.len() > 0 {
        let t = s.drop_last();
        assert forall|i: int| 0 <= i < t.len() implies keeps_char(#[trigger] t[i]) by {
            assert(t[i] == s[i]);
        }
        lemma_all_kept_is_fixed(t);
        assert(keeps_char(s[s.len() - 1]));
        assert(t.push(s.last()) =~= s);
    } else {
        assert(sanitized(s) =~= s);
    }
}

/// Why a voice-typing session failed.
#[derive(Debug, PartialEq, Eq)]
pub enum VoiceTypingError {
    MicUnavailable(String),
    WhisperModelMissing,
    InjectionFailed(String),
    MainPipelineActive,
    Other(String),
}

impl VoiceTypingError {
    /// Short message for a toast (no technical detail but for `Other`).
    pub fn to_toast_message(&self) -> (m: &str)
        ensures
            m@ == match *self {
                VoiceTypingError::MicUnavailable(_) => "Không truy cập được mic"@,
                VoiceTypingError::WhisperModelMissing => "Mô hình Whisper chưa cài"@,
                VoiceTypingError::InjectionFailed(_) => "Không gõ được — focus app khác và thử lại"@,
                VoiceTypingError::MainPipelineActive => "Đang ghi phiên chính — dừng phiên trước"@,
                VoiceTypingError::Other(s) => s@,
            },
    {
        match self {
            VoiceTypingError::MicUnavailable(_) => "Không truy cập được mic",
            VoiceTypingError::WhisperModelMissing => "Mô hình Whisper chưa cài",
            VoiceTypingError::InjectionFailed(_) => "Không gõ được — focus app khác và thử lại",
            VoiceTypingError::MainPipelineActive => "Đang ghi phiên chính — dừng phiên trước",
            VoiceTypingError::Other(m) => m.as_str(),
        }
    }

    /// Full message, with the technical detail where there is one.
    pub fn message(&self) -> (m: String)
        ensures
            m@ == match *self {
                VoiceTypingError::MicUnavailable(d) => "Không truy cập được mic: "@ + d@,
                VoiceTypingError::WhisperModelMissing => "Mô hình Whisper chưa cài"@,
                VoiceTypingError::InjectionFailed(d) => "Không gõ được — focus app khác và thử lại: "@ + d@,
                VoiceTypingError::MainPipelineActive => "Đang ghi phiên chính — dừng phiên trước"@,
                VoiceTypingError::Other(s) => s@,
            },
    {
        let mut m = String::new();
        match self {
            VoiceTypingError::MicUnavailable(d) => {
                push_str(&mut m, "Không truy cập được mic: ");
                push_str(&mut m, d.as_str());
            },
            VoiceTypingError::WhisperModelMissing => push_str(&mut m, "Mô hình Whisper chưa cài"),
            VoiceTypingError::InjectionFailed(d) => {
                push_str(&mut m, "Không gõ được — focus app khác và thử lại: ");
                push_str(&mut m, d.as_str());
            },
            VoiceTypingError::MainPipelineActive => push_str(&mut m, "Đang ghi phiên chính — dừng phiên trước"),
            VoiceTypingError::Other(s) => push_str(&mut m, s.as_str()),
        }
        m
    }
}

/// Default hotkey.
pub fn default_voice_typing_hotkey() -> (s: String)
    ensures
        s@ == "Ctrl+Shift+V"@,
{
    let mut s = String::new();
    push_str(&mut s, "Ctrl+Shift+V");
    s
}

/// Default maximum dictation length, in seconds.
pub fn default_voice_typing_max_duration_secs() -> (n: u32)
    ensures
        n == 10,
{
    10
}

/// Default language hint.
pub fn default_voice_typing_language() -> (s: String)
    ensures
        s@ == "vi"@,
{
    let mut s = String::new();
    push_str(&mut s, "vi");
    s
}

/// Voice-typing settings; off until the user turns them on.
#[derive(Debug, PartialEq, Eq)]
pub struct VoiceTypingConfig {
    pub enabled: bool,
    pub hotkey: String,
    /// Longest dictation, 1 to 30 seconds.
    pub max_duration_secs: u32,
    /// Language hint (ISO 639-1).
    pub language: String,
}

impl Default for VoiceTypingConfig {
    fn default() -> (c: Self)
        ensures
            !c.enabled,
            c.hotkey@ == "Ctrl+Shift+V"@,
            c.max_duration_secs == 10,
            c.language@ == "vi"@,
    {
        VoiceTypingConfig {
            enabled: false,
            hotkey: default_voice_typing_hotkey(),
            max_duration_secs: default_voice_typing_max_duration_secs(),
            language: default_voice_typing_language(),
        }
    }
}

impl VoiceTypingConfig {
    /// Brings the settings back into range: the duration into 1..=30
    /// seconds, a blank language to `vi`.
    pub fn clamp_in_place(&mut self)
        ensures
            final(self).enabled == old(self).enabled,
            final(self).hotkey@ == old(self).hotkey@,
            final(self).max_duration_secs == (if old(self).max_duration_secs < 1 {
                1
            } else if old(self).max_duration_secs > 30 {
                30
            } else {
                old(self).max_duration_secs
            }),
            final(self).language@ == (if trim(old(self).language@).len() == 0 {
                "vi"@
            } else {
                old(self).language@
            }),
    {
        if self.max_duration_secs < 1 {
            self.max_duration_secs = 1;
        } else if self.max_duration_secs > 30 {
            self.max_duration_secs = 30;
        }
        let cs = chars_of(self.language.as_str());
        let t = trim_chars(cs.as_slice());
        if t.len() == 0 {
            self.language = default_voice_typing_language();
        }
    }
}

// ---------------------------------------------------------------- one dictation

/// Quiet after speech that ends a dictation, in milliseconds.
pub const SILENCE_GATE_MS: u64 = 1500;

/// Shortest dictation, in milliseconds from its start.
pub const MIN_SPEECH_MS: u64 = 300;

/// Audio the capture ring holds per second of dictation: two seconds'
/// worth of 16 kHz samples.
pub const RING_SAMPLES_PER_SEC: usize = 32_000;

/// Capacity of the capture ring for a dictation: room for the longest
/// dictation plus two seconds, at twice the 16 kHz rate.
pub fn ring_capacity(max_duration_secs: u32) -> (n: usize)
    requires
        RING_SAMPLES_PER_SEC * (max_duration_secs + 2) <= usize::MAX,
    ensures
        n == RING_SAMPLES_PER_SEC * (max_duration_secs + 2),
{
    RING_SAMPLES_PER_SEC * (max_duration_secs as usize + 2)
}

/// What the collecting loop does next.
#[derive(Debug, Clone, Copy, PartialEq, Eq, Structural)]
pub enum CollectAction {
    /// Wait for more audio.
    Continue,
    /// Stop listening and transcribe what was collected.
    Pack,
    /// The user cancelled: drop everything.
    Cancel,
}

/// What the collecting loop got while waiting for audio.
#[derive(Debug, Clone, Copy, PartialEq, Eq, Structural)]
pub enum CollectEvent {
    /// A chunk of audio, loud when its level is above the silence threshold.
    Chunk { loud: bool },
    /// The audio stream ended.
    Closed,
    /// Nothing arrived in time.
    Timeout,
}

/// Speech and silence heard so far in a dictation; times are milliseconds
/// from its start.
#[derive(Debug, Clone, Copy, PartialEq, Eq, Structural)]
pub struct SilenceGate {
    pub had_speech: bool,
    /// Start of the quiet that followed speech.
    pub silence_since_ms: Option<u64>,
}

/// The listening state after a chunk at `now_ms`: a loud chunk marks speech and ends
/// any quiet; the first quiet chunk after speech starts the quiet.
pub open spec fn gate_after(g: SilenceGate, loud: bool, now_ms: u64) -> SilenceGate {
    if loud {
        SilenceGate { had_speech: true, silence_since_ms: None }
    } else if g.had_speech && g.silence_since_ms is None {
        SilenceGate { had_speech: true, silence_since_ms: Some(now_ms) }
    } else {
        g
    }
}

/// A dictation ends once speech was heard, it lasted the minimum, and the
/// quiet after the speech lasted `SILENCE_GATE_MS`.
pub open spec fn gate_closes(g: SilenceGate, now_ms: u64) -> bool {
    &&& g.had_speech
    &&& now_ms >= MIN_SPEECH_MS
    &&& match g.silence_since_ms {
        Some(t) => now_ms - t >= SILENCE_GATE_MS,
        None => false,
    }
}

/// Silence alone never ends a dictation: before any speech was heard, a
/// quiet chunk leaves the listening state as it was and does not pack.
pub proof fn lemma_quiet_before_speech_never_packs(g: SilenceGate, now_ms: u64)
    requires
        !g.had_speech,
    ensures
        gate_after(g, false, now_ms) == g,
        !gate_closes(gate_after(g, false, now_ms), now_ms),
{
}

/// Speech resets the quiet: right after a loud chunk the dictation does
/// not end, whatever came before.
pub proof fn lemma_loud_chunk_keeps_listening(g: SilenceGate, now_ms: u64)
    ensures
        gate_after(g, true, now_ms).had_speech,
        !gate_closes(gate_after(g, true, now_ms), now_ms),
{
}

/// What the loop does before waiting: cancel when the state went back to
/// idle, pack once the longest dictation elapsed, else wait (`None`).
pub fn before_wait(cancelled: bool, elapsed_ms: u64, max_duration_secs: u32) -> (a: Option<CollectAction>)
    ensures
        a == if cancelled {
            Some(CollectAction::Cancel)
        } else if elapsed_ms >= max_duration_secs * 1000 {
            Some(CollectAction::Pack)
        } else {
            None::<CollectAction>
        },
{
    if cancelled {
        Some(CollectAction::Cancel)
    } else if elapsed_ms >= max_duration_secs as u64 * 1000 {
        Some(CollectAction::Pack)
    } else {
        None
    }
}

impl SilenceGate {
    /// No speech heard yet.
    pub fn new() -> (g: Self)
        ensures
            !g.had_speech,
            g.silence_since_ms is None,
    {
        SilenceGate { had_speech: false, silence_since_ms: None }
    }

    /// Takes what the wait brought at `now_ms`: the end of the stream packs,
    /// a timeout goes on waiting, a chunk updates the listening state and
    /// packs once the quiet after speech lasted long enough.
    pub fn on_event(&mut self, event: CollectEvent, now_ms: u64) -> (a: CollectAction)
        ensures
            match event {
                CollectEvent::Closed => a == CollectAction::Pack && *final(self) == *old(self),
                CollectEvent::Timeout => a == CollectAction::Continue && *final(self) == *old(self),
                CollectEvent::Chunk { loud } => {
                    &&& *final(self) == gate_after(*old(self), loud, now_ms)
                    &&& a == if gate_closes(*final(self), now_ms) {
                        CollectAction::Pack
                    } else {
                        CollectAction::Continue
                    }
                },
            },
    {
        match event {
            CollectEvent::Closed => CollectAction::Pack,
            CollectEvent::Timeout => CollectAction::Continue,
            CollectEvent::Chunk { loud } => {
                if loud {
                    self.had_speech = true;
                    self.silence_since_ms = None;
                } else if self.had_speech && self.silence_since_ms.is_none() {
                    self.silence_since_ms = Some(now_ms);
                }
                let closes = match self.silence_since_ms {
                    Some(t) => self.had_speech && now_ms >= MIN_SPEECH_MS && now_ms >= t && now_ms - t >= SILENCE_GATE_MS,
                    None => false,
                };
                if closes {
                    CollectAction::Pack
                } else {
                    CollectAction::Continue
                }
            },
        }
    }
}

/// The text kept from the recognizer's final results: the first-pass text
/// when there is one, else the other; an empty result keeps what was kept.
pub open spec fn kept_after(kept: Seq<char>, original_text: Seq<char>, text: Seq<char>) -> Seq<char> {
    if original_text.len() > 0 {
        original_text
    } else if text.len() > 0 {
        text
    } else {
        kept
    }
}

/// Keeps the text of a final result (see `kept_after`).
pub fn keep_final_text(kept: &mut String, original_text: String, text: String)
    ensures
        final(kept)@ == kept_after(old(kept)@, original_text@, text@),
{
    if !original_text.as_str().is_empty() {
        *kept = original_text;
    } else if !text.as_str().is_empty() {
        *kept = text;
    }
}

/// What a dictation types: the kept text trimmed, `None` when nothing is left.
pub fn dictation_result(kept: &str) -> (r: Option<String>)
    ensures
        match r {
            None => trim(kept@).len() == 0,
            Some(s) => s@ == trim(kept@) && s@.len() > 0,
        },
{
    let cs = chars_of(kept);
    let t = trim_chars(cs.as_slice());
    if t.len() == 0 {
        None
    } else {
        Some(string_from_chars(t.as_slice()))
    }
}

impl VoiceTypingError {
    /// Severity of the failure's toast: a warning when the main recording
    /// is running, an error otherwise.
    pub fn toast_severity(&self) -> (s: ToastSeverity)
        ensures
            s == if *self is MainPipelineActive { ToastSeverity::Warn } else { ToastSeverity::Error },
    {
        match self {
            VoiceTypingError::MainPipelineActive => ToastSeverity::Warn,
            _ => ToastSeverity::Error,
        }
    }
}

} // verus!
