//! Streaming speech recognition with Soniox: the provider's settings, the
//! configuration message it sends, the mapping of recognized tokens to
//! transcript events, and the errors of the transcription layer.
use crate::format::{push_str, push_u64};
use crate::reconnect::{backoff_delay_nanos, ExponentialBackoff};
use crate::text::chars_of;
use std::time::Instant;
use vstd::prelude::*;

verus! {

/// Library version.
pub fn version() -> (v: &'static str)
    ensures
        v@ == "0.1.0"@,
{
    "0.1.0"
}

/// Default Soniox WebSocket endpoint.
pub const DEFAULT_WS_URL: &'static str = "wss://stt-rt.soniox.com/transcribe-websocket";

/// Default Soniox model.
pub const DEFAULT_MODEL: &'static str = "stt-rt-preview";

/// Seconds between keep-alive pings.
pub const PING_INTERVAL_SECS: u64 = 30;

/// An API key, kept out of logs.
pub struct ApiKey {
    key: String,
}

impl ApiKey {
    pub closed spec fn spec_key(&self) -> Seq<char> {
        self.key@
    }

    /// A key from its text.
    pub fn from_raw(key: String) -> (k: Self)
        ensures
            k.spec_key() == key@,
    {
        ApiKey { key }
    }

    /// The key's text.
    pub fn expose(&self) -> (s: &str)
        ensures
            s@ == self.spec_key(),
    {
        self.key.as_str()
    }
}

/// Options of one transcription stream.
#[derive(Debug)]
pub struct StreamOpts {
    /// Language hint, e.g. `"vi"`.
    pub language_hint: Option<String>,
    /// Per-token language identification.
    pub enable_lid: bool,
    /// Speaker diarization.
    pub enable_diarization: bool,
    /// Translate into this language.
    pub enable_translation_to: Option<String>,
}

impl Default for StreamOpts {
    fn default() -> (o: Self)
        ensures
            o.language_hint.is_none(),
            !o.enable_lid,
            !o.enable_diarization,
            o.enable_translation_to.is_none(),
    {
        StreamOpts { language_hint: None, enable_lid: false, enable_diarization: false, enable_translation_to: None }
    }
}

/// Translation settings of the configuration message.
#[derive(Debug)]
pub struct TranslationConfig {
    /// `"one_way"`: incoming speech into the target language.
    pub mode: String,
    pub target_language: String,
}

/// The configuration message sent when the socket opens.
#[derive(Debug)]
pub struct ConfigMessage {
    pub api_key: String,
    pub model: String,
    /// Always `"pcm_s16le"`.
    pub audio_format: String,
    /// Always 16000.
    pub sample_rate: u32,
    /// Always 1.
    pub num_channels: u32,
    pub enable_language_identification: bool,
    pub enable_speaker_diarization: bool,
    pub language_hints: Option<Vec<String>>,
    pub translation: Option<TranslationConfig>,
}

fn copy_string(s: &String) -> (r: String)
    ensures
        r@ == s@,
{
    s.clone()
}

/// The Soniox provider: key, endpoint and model.
pub struct SonioxProvider {
    api_key: ApiKey,
    ws_url: String,
    model: String,
}

impl SonioxProvider {
    pub closed spec fn spec_api_key(&self) -> Seq<char> {
        self.api_key.spec_key()
    }

    pub closed spec fn spec_ws_url(&self) -> Seq<char> {
        self.ws_url@
    }

    pub closed spec fn spec_model(&self) -> Seq<char> {
        self.model@
    }

    /// A provider on the default endpoint and model.
    pub fn new(api_key: ApiKey) -> (p: Self)
        ensures
            p.spec_api_key() == api_key.spec_key(),
            p.spec_ws_url() == DEFAULT_WS_URL@,
            p.spec_model() == DEFAULT_MODEL@,
    {
        let mut ws_url = String::new();
        push_str(&mut ws_url, DEFAULT_WS_URL);
        let mut model = String::new();
        push_str(&mut model, DEFAULT_MODEL);
        SonioxProvider { api_key, ws_url, model }
    }

    /// The same provider on another endpoint.
    pub fn with_url(self, url: &str) -> (p: Self)
        ensures
            p.spec_api_key() == self.spec_api_key(),
            p.spec_ws_url() == url@,
            p.spec_model() == self.spec_model(),
    {
        let mut ws_url = String::new();
        push_str(&mut ws_url, url);
        SonioxProvider { api_key: self.api_key, ws_url, model: self.model }
    }

    /// The same provider with another model.
    pub fn with_model(self, model: &str) -> (p: Self)
        ensures
            p.spec_api_key() == self.spec_api_key(),
            p.spec_ws_url() == self.spec_ws_url(),
            p.spec_model() == model@,
    {
        let mut m = String::new();
        push_str(&mut m, model);
        SonioxProvider { api_key: self.api_key, ws_url: self.ws_url, model: m }
    }

    /// The endpoint.
    pub fn ws_url(&self) -> (s: &str)
        ensures
            s@ == self.spec_ws_url(),
    {
        self.ws_url.as_str()
    }

    /// The model.
    pub fn model(&self) -> (s: &str)
        ensures
            s@ == self.spec_model(),
    {
        self.model.as_str()
    }

    /// The provider's name.
    pub fn name(&self) -> (s: &'static str)
        ensures
            s@ == "soniox"@,
    {
        "soniox"
    }

    /// The configuration message for a stream with `opts`: PCM16 mono at
    /// 16 kHz, the options' switches, the hint as a one-element list, and
    /// one-way translation into the requested language.
    pub fn build_config(&self, opts: &StreamOpts) -> (c: ConfigMessage)
        ensures
            c.api_key@ == self.spec_api_key(),
            c.model@ == self.spec_model(),
            c.audio_format@ == "pcm_s16le"@,
            c.sample_rate == 16_000,
            c.num_channels == 1,
            c.enable_language_identification == opts.enable_lid,
            c.enable_speaker_diarization == opts.enable_diarization,
            match (c.language_hints, opts.language_hint) {
                (Some(hs), Some(h)) => hs@.len() == 1 && hs@[0]@ == h@,
                (None, None) => true,
                _ => false,
            },
            match (c.translation, opts.enable_translation_to) {
                (Some(t), Some(target)) => t.mode@ == "one_way"@ && t.target_language@ == target@,
                (None, None) => true,
                _ => false,
            },
    {
        let mut api_key = String::new();
        push_str(&mut api_key, self.api_key.expose());
        let mut audio_format = String::new();
        push_str(&mut audio_format, "pcm_s16le");
        let language_hints = match &opts.language_hint {
            Some(h) => {
                let mut v: Vec<String> = Vec::new();
                v.push(copy_string(h));
                Some(v)
            },
            None => None,
        };
        let translation = match &opts.enable_translation_to {
            Some(t) => {
                let mut mode = String::new();
                push_str(&mut mode, "one_way");
                Some(TranslationConfig { mode, target_language: copy_string(t) })
            },
            None => None,
        };
        ConfigMessage {
            api_key,
            model: copy_string(&self.model),
            audio_format,
            sample_rate: 16_000,
            num_channels: 1,
            enable_language_identification: opts.enable_lid,
            enable_speaker_diarization: opts.enable_diarization,
            language_hints,
            translation,
        }
    }
}

/// One token recognized by Soniox.
#[derive(Debug)]
pub struct Token {
    pub text: String,
    pub is_final: bool,
    pub language: Option<String>,
    pub speaker: Option<String>,
    /// Start, milliseconds from the session start.
    pub start_ms: Option<u64>,
    pub end_ms: Option<u64>,
    /// `"original"`, `"translation"`, ...
    pub translation_status: Option<String>,
    /// Source language of a translated token.
    pub source_language: Option<String>,
}

/// A batch of tokens, or an error report.
#[derive(Debug)]
pub struct TokenMessage {
    pub tokens: Vec<Token>,
    pub final_audio_proc_ms: Option<u64>,
    pub total_audio_proc_ms: Option<u64>,
    pub error_code: Option<String>,
    pub error_message: Option<String>,
}

/// What the transcription layer reports.
#[derive(Debug)]
pub enum TranscriptEvent {
    Connected,
    /// Text that may still change.
    Partial { seq: u64, text: String, language: Option<String> },
    /// Settled text with its time range (milliseconds from the session start).
    Final {
        seq: u64,
        text: String,
        language: Option<String>,
        speaker: Option<String>,
        start_ms: u64,
        end_ms: u64,
    },
    /// Translated text.
    Translation { seq: u64, text: String, source_lang: String, target_lang: String, is_final: bool },
    Error { code: String, message: String },
    Disconnected,
}

/// ASCII case-insensitive equality.
pub open spec fn eq_ignore_ascii_case(a: Seq<char>, b: Seq<char>) -> bool {
    a.len() == b.len() && forall|i: int| 0 <= i < a.len() ==> ascii_lower(#[trigger] a[i]) == ascii_lower(b[i])
}

pub open spec fn ascii_lower(c: char) -> char {
    if 'A' <= c && c <= 'Z' {
        ((c as u32) + 32) as char
    } else {
        c
    }
}

fn to_ascii_lower(c: char) -> (r: char)
    ensures
        r == ascii_lower(c),
{
    if 'A' <= c && c <= 'Z' {
        let b: u8 = (c as u8) + 32;
        b as char
    } else {
        c
    }
}

/// Compares two strings ignoring ASCII case.
pub fn str_eq_ignore_ascii_case(a: &str, b: &str) -> (r: bool)
    ensures
        r == eq_ignore_ascii_case(a@, b@),
{
    let x = chars_of(a);
    let y = chars_of(b);
    if x.len() != y.len() {
        return false;
    }
    let mut i: usize = 0;
    while i < x.len()
        invariant
            x@ == a@,
            y@ == b@,
            x@.len() == y@.len(),
            i <= x@.len(),
            forall|k: int| 0 <= k < i ==> ascii_lower(#[trigger] x@[k]) == ascii_lower(y@[k]),
        decreases x@.len() - i,
    {
        if to_ascii_lower(x[i]) != to_ascii_lower(y[i]) {
            return false;
        }
        i = i + 1;
    }
    true
}

/// The token is a translation: its status reads `translation`, ignoring
/// ASCII case.
pub open spec fn is_translation_token(tok: Token) -> bool {
    match tok.translation_status {
        Some(s) => eq_ignore_ascii_case(s@, "translation"@),
        None => false,
    }
}

pub open spec fn opt_view(o: Option<String>) -> Option<Seq<char>> {
    match o {
        Some(s) => Some(s@),
        None => None,
    }
}

pub open spec fn text_or_empty(o: Option<String>) -> Seq<char> {
    match o {
        Some(s) => s@,
        None => Seq::<char>::empty(),
    }
}

fn copy_opt(o: &Option<String>) -> (r: Option<String>)
    ensures
        opt_view(r) == opt_view(*o),
{
    match o {
        Some(s) => Some(copy_string(s)),
        None => None,
    }
}

fn copy_or_empty(o: &Option<String>) -> (r: String)
    ensures
        r@ == text_or_empty(*o),
{
    match o {
        Some(s) => copy_string(s),
        None => String::new(),
    }
}

/// The sequence number after `seq`, wrapping at the top.
pub open spec fn next_seq(seq: u64) -> u64 {
    if seq == u64::MAX {
        0
    } else {
        (seq + 1) as u64
    }
}

/// The sequence number `k` steps after `seq`, wrapping at the top.
pub open spec fn seq_plus(seq: u64, k: nat) -> u64 {
    ((seq + k) % 0x1_0000_0000_0000_0000) as u64
}

/// `ev` is the event that token `tok` becomes under sequence number `seq`:
/// a translation when the token says so, else a final or a partial
/// according to the token's flag; missing times read as 0 and missing
/// languages as empty.
pub open spec fn token_event(tok: Token, seq: u64, ev: TranscriptEvent) -> bool {
    match ev {
        TranscriptEvent::Translation { seq: s, text, source_lang, target_lang, is_final } => {
            &&& is_translation_token(tok)
            &&& s == seq
            &&& text@ == tok.text@
            &&& source_lang@ == text_or_empty(tok.source_language)
            &&& target_lang@ == text_or_empty(tok.language)
            &&& is_final == tok.is_final
        },
        TranscriptEvent::Final { seq: s, text, language, speaker, start_ms, end_ms } => {
            &&& !is_translation_token(tok)
            &&& tok.is_final
            &&& s == seq
            &&& text@ == tok.text@
            &&& opt_view(language) == opt_view(tok.language)
            &&& opt_view(speaker) == opt_view(tok.speaker)
            &&& start_ms == match tok.start_ms { Some(v) => v, None => 0 }
            &&& end_ms == match tok.end_ms { Some(v) => v, None => 0 }
        },
        TranscriptEvent::Partial { seq: s, text, language } => {
            &&& !is_translation_token(tok)
            &&& !tok.is_final
            &&& s == seq
            &&& text@ == tok.text@
            &&& opt_view(language) == opt_view(tok.language)
        },
        _ => false,
    }
}

/// The event a token becomes (see `token_event`), numbered with the current
/// sequence number, which then advances (wrapping).
pub fn map_token(tok: &Token, seq: &mut u64, session_start: Instant) -> (ev: TranscriptEvent)
    ensures
        *final(seq) == next_seq(*old(seq)),
        token_event(*tok, *old(seq), ev),
{
    let current_seq = *seq;
    *seq = if current_seq == u64::MAX { 0 } else { current_seq + 1 };
    let is_translation = match &tok.translation_status {
        Some(s) => str_eq_ignore_ascii_case(s.as_str(), "translation"),
        None => false,
    };
    if is_translation {
        return TranscriptEvent::Translation {
            seq: current_seq,
            text: copy_string(&tok.text),
            source_lang: copy_or_empty(&tok.source_language),
            target_lang: copy_or_empty(&tok.language),
            is_final: tok.is_final,
        };
    }
    if tok.is_final {
        TranscriptEvent::Final {
            seq: current_seq,
            text: copy_string(&tok.text),
            language: copy_opt(&tok.language),
            speaker: copy_opt(&tok.speaker),
            start_ms: match tok.start_ms { Some(v) => v, None => 0 },
            end_ms: match tok.end_ms { Some(v) => v, None => 0 },
        }
    } else {
        TranscriptEvent::Partial { seq: current_seq, text: copy_string(&tok.text), language: copy_opt(&tok.language) }
    }
}

/// Errors of the transcription layer.
#[derive(Debug)]
pub enum SttError {
    Credential(String),
    Network(String),
    Provider { code: String, message: String },
    ProtocolDecode(String),
    ReconnectExhausted { attempts: u32 },
    DownstreamClosed,
    Config(String),
}

impl SttError {
    /// The error's message.
    pub fn message(&self) -> (m: String)
        ensures
            m@ == match *self {
                SttError::Credential(d) => "credential store error: "@ + d@,
                SttError::Network(d) => "network error: "@ + d@,
                SttError::Provider { code, message } => "provider error: code="@ + code@ + " message="@ + message@,
                SttError::ProtocolDecode(d) => "protocol decode error: "@ + d@,
                SttError::ReconnectExhausted { attempts } => "reconnect exhausted after "@ + crate::format::decimal(attempts as nat) + " attempts"@,
                SttError::DownstreamClosed => "downstream event channel closed"@,
                SttError::Config(d) => "config error: "@ + d@,
            },
    {
        let mut m = String::new();
        match self {
            SttError::Credential(d) => {
                push_str(&mut m, "credential store error: ");
                push_str(&mut m, d.as_str());
            },
            SttError::Network(d) => {
                push_str(&mut m, "network error: ");
                push_str(&mut m, d.as_str());
            },
            SttError::Provider { code, message } => {
                push_str(&mut m, "provider error: code=");
                push_str(&mut m, code.as_str());
                push_str(&mut m, " message=");
                push_str(&mut m, message.as_str());
            },
            SttError::ProtocolDecode(d) => {
                push_str(&mut m, "protocol decode error: ");
                push_str(&mut m, d.as_str());
            },
            SttError::ReconnectExhausted { attempts } => {
                push_str(&mut m, "reconnect exhausted after ");
                push_u64(&mut m, *attempts as u64);
                push_str(&mut m, " attempts");
            },
            SttError::DownstreamClosed => push_str(&mut m, "downstream event channel closed"),
            SttError::Config(d) => {
                push_str(&mut m, "config error: ");
                push_str(&mut m, d.as_str());
            },
        }
        m
    }
}

// ---------------------------------------------------------------- the streaming loop

/// Proof that stepping the sequence once more is one more step.
proof fn lemma_seq_plus_step(seq: u64, k: nat)
    ensures
        next_seq(seq_plus(seq, k)) == seq_plus(seq, k + 1),
        seq_plus(seq, 0) == seq,
{
    let m: int = 0x1_0000_0000_0000_0000;
    let a: int = (seq + k) % m;
    assert(0 <= a < m);
    assert(seq_plus(seq, k) as int == a);
    if a == m - 1 {
        assert((seq + k + 1) % m == 0) by {
            vstd::arithmetic::div_mod::lemma_add_mod_noop(seq + k, 1, m);
        }
    } else {
        assert((seq + k + 1) % m == a + 1) by {
            vstd::arithmetic::div_mod::lemma_add_mod_noop(seq + k, 1, m);
            vstd::arithmetic::div_mod::lemma_small_mod((a + 1) as nat, m as nat);
        }
    }
    vstd::arithmetic::div_mod::lemma_small_mod(seq as nat, m as nat);
}

/// The events of one message from Soniox: its error first, when it reports
/// one (the message empty when missing), then one event per token, numbered
/// on from `seq`, which advances past them.
pub fn events_for_message(tm: &TokenMessage, seq: &mut u64, session_start: Instant) -> (out: Vec<TranscriptEvent>)
    ensures
        ({
            let off: int = if tm.error_code is Some { 1 } else { 0 };
            &&& out@.len() == off + tm.tokens@.len()
            &&& *final(seq) == seq_plus(*old(seq), tm.tokens@.len())
            &&& (tm.error_code is Some ==> match out@[0] {
                TranscriptEvent::Error { code, message } => code@ == text_or_empty(tm.error_code)
                    && message@ == text_or_empty(tm.error_message),
                _ => false,
            })
            &&& forall|i: int| 0 <= i < tm.tokens@.len() ==> token_event(
                #[trigger] tm.tokens@[i],
                seq_plus(*old(seq), i as nat),
                out@[off + i],
            )
        }),
{
    let mut out: Vec<TranscriptEvent> = Vec::new();
    match &tm.error_code {
        Some(code) => {
            out.push(TranscriptEvent::Error { code: copy_string(code), message: copy_or_empty(&tm.error_message) });
        },
        None => {},
    }
    let ghost off: int = if tm.error_code is Some { 1 } else { 0 };
    let ghost seq0: u64 = *seq;
    proof {
        lemma_seq_plus_step(seq0, 0);
    }
    let mut i: usize = 0;
    while i < tm.tokens.len()
        invariant
            i <= tm.tokens@.len(),
            off == (if tm.error_code is Some { 1int } else { 0int }),
            out@.len() == off + i,
            *seq == seq_plus(seq0, i as nat),
            tm.error_code is Some ==> match out@[0] {
                TranscriptEvent::Error { code, message } => code@ == text_or_empty(tm.error_code)
                    && message@ == text_or_empty(tm.error_message),
                _ => false,
            },
            forall|j: int| 0 <= j < i ==> token_event(#[trigger] tm.tokens@[j], seq_plus(seq0, j as nat), out@[off + j]),
        decreases tm.tokens@.len() - i,
    {
        proof {
            lemma_seq_plus_step(seq0, i as nat);
        }
        let ev = map_token(&tm.tokens[i], seq, session_start);
        out.push(ev);
        i = i + 1;
    }
    out
}

/// The two bytes of a sample in little-endian order: its 16-bit pattern's
/// low byte, then its high byte.
pub open spec fn sample_bits(s: i16) -> nat {
    if s < 0 {
        (s + 0x1_0000) as nat
    } else {
        s as nat
    }
}

/// Little-endian PCM16 bytes of a block of samples, as sent to Soniox.
pub fn pcm16_le_bytes(samples: &[i16]) -> (bytes: Vec<u8>)
    requires
        2 * samples@.len() <= usize::MAX,
    ensures
        bytes@.len() == 2 * samples@.len(),
        forall|k: int| 0 <= k < samples@.len() ==> {
            &&& bytes@[2 * k] == sample_bits(#[trigger] samples@[k]) % 256
            &&& bytes@[2 * k + 1] == sample_bits(samples@[k]) / 256
        },
{
    let mut bytes: Vec<u8> = Vec::new();
    let mut i: usize = 0;
    while i < samples.len()
        invariant
            i <= samples@.len(),
            bytes@.len() == 2 * i,
            forall|k: int| 0 <= k < i ==> {
                &&& bytes@[2 * k] == sample_bits(#[trigger] samples@[k]) % 256
                &&& bytes@[2 * k + 1] == sample_bits(samples@[k]) / 256
            },
        decreases samples@.len() - i,
    {
        let s = samples[i];
        let u: u32 = if s < 0 { (s as i32 + 0x1_0000) as u32 } else { s as u32 };
        assert(u == sample_bits(s));
        bytes.push((u % 256) as u8);
        bytes.push((u / 256) as u8);
        i = i + 1;
    }
    bytes
}

/// After a connection attempt failed (`session_ended` false) or a session
/// ended: a graceful end finishes (`Ok(None)`); otherwise the backoff gives
/// the delay before the next attempt, or the stream gives up once the
/// attempts are used up.
pub fn reconnect_step(backoff: &mut ExponentialBackoff, session_ended: bool) -> (r: Result<Option<u128>, SttError>)
    ensures
        session_ended ==> r == Ok::<Option<u128>, SttError>(None) && final(backoff).spec_attempts()
            == old(backoff).spec_attempts(),
        !session_ended && old(backoff).spec_attempts() < old(backoff).spec_max_attempts() ==> {
            &&& r == Ok::<Option<u128>, SttError>(Some(
                backoff_delay_nanos(old(backoff).spec_attempts(), old(backoff).spec_cap_nanos()) as u128,
            ))
            &&& final(backoff).spec_attempts() == old(backoff).spec_attempts() + 1
        },
        !session_ended && old(backoff).spec_attempts() >= old(backoff).spec_max_attempts() ==> {
            &&& r matches Err(SttError::ReconnectExhausted { attempts })
            &&& attempts == old(backoff).spec_attempts()
            &&& final(backoff).spec_attempts() == old(backoff).spec_attempts()
        },
        final(backoff).spec_max_attempts() == old(backoff).spec_max_attempts(),
        final(backoff).spec_cap_nanos() == old(backoff).spec_cap_nanos(),
{
    if session_ended {
        return Ok(None);
    }
    match backoff.next_delay() {
        Some(d) => Ok(Some(d)),
        None => Err(SttError::ReconnectExhausted { attempts: backoff.attempts() }),
    }
}

} // verus!
