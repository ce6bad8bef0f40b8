//! The first-run wizard's live API-key test: which provider is probed, the
//! configuration message sent to Soniox, and the verdict read from what
//! the provider's socket gives back. The socket itself is opened and read
//! by the application, which hands the library each step's outcome.
use crate::consent::{contains_seq, str_contains};
use crate::format::{push_char, push_str};
use crate::text::chars_of;
use vstd::prelude::*;

verus! {

/// The string that `serde_json` finds at JSON pointer `pointer` in `text`
/// parsed as a JSON value; `None` when the text does not parse, nothing is
/// there, or what is there is not a string.
pub uninterp spec fn json_string_at(text: Seq<char>, pointer: Seq<char>) -> Option<Seq<char>>;

/// Calls `serde_json::from_str::<serde_json::Value>` and
/// `Value::pointer`, and takes the value found when it is a JSON string.
/// The result is named (`json_string_at`), not described.
#[verifier::external_body]
fn json_string_field(text: &str, pointer: &str) -> (r: Option<String>)
    ensures
        match (r, json_string_at(text@, pointer@)) {
            (Some(s), Some(t)) => s@ == t,
            (None, None) => true,
            _ => false,
        },
{
    match serde_json::from_str::<serde_json::Value>(text) {
        Ok(v) => match v.pointer(pointer) {
            Some(serde_json::Value::String(s)) => Some(s.clone()),
            _ => None,
        },
        Err(_) => None,
    }
}

pub open spec fn opt_seq(o: Option<String>) -> Option<Seq<char>> {
    match o {
        Some(s) => Some(s@),
        None => None,
    }
}

/// Whole-test time limit, in seconds.
pub const KEY_TEST_TIMEOUT_SECS: u64 = 5;

/// What the wizard says when the whole test runs out of time.
pub const KEY_TEST_TIMEOUT_MSG: &'static str = "Hết thời gian chờ — kiểm tra kết nối mạng";

/// Soniox's endpoint.
pub const SONIOX_PROBE_URL: &'static str = "wss://stt-rt.soniox.com/transcribe-websocket";

/// OpenAI Realtime's endpoint.
pub const OPENAI_PROBE_URL: &'static str = "wss://api.openai.com/v1/realtime?intent=transcription";

/// Seconds Soniox's reply is awaited (silence counts as acceptance).
pub const SONIOX_REPLY_WAIT_SECS: u64 = 3;

/// Seconds OpenAI's reply is awaited (silence counts as acceptance).
pub const OPENAI_REPLY_WAIT_SECS: u64 = 4;

/// Bytes of silence (100 ms of 16 kHz PCM16) sent to Soniox as a probe.
pub const SONIOX_PROBE_SILENCE_BYTES: usize = 3200;

/// Which test a provider gets.
#[derive(Debug, Clone, Copy, PartialEq, Eq, Structural)]
pub enum KeyProbeTarget {
    Soniox,
    OpenAi,
    /// The local engine needs no key: the test passes at once.
    NoKeyNeeded,
}

/// The test for a provider: Soniox and OpenAI Realtime are probed, the
/// local engine needs none, any other name is refused.
pub fn key_probe_target(provider: &str) -> (r: Result<KeyProbeTarget, String>)
    ensures
        match r {
            Ok(KeyProbeTarget::Soniox) => provider@ == "soniox"@,
            Ok(KeyProbeTarget::OpenAi) => provider@ == "openai-realtime"@,
            Ok(KeyProbeTarget::NoKeyNeeded) => provider@ == "local-whisper"@,
            Err(m) => provider@ != "soniox"@ && provider@ != "openai-realtime"@ && provider@ != "local-whisper"@
                && m@ == "Provider không xác định: "@ + provider@,
        },
{
    let p = chars_of(provider);
    let s = chars_of("soniox");
    let o = chars_of("openai-realtime");
    let l = chars_of("local-whisper");
    if crate::text::chars_equal(p.as_slice(), s.as_slice()) {
        Ok(KeyProbeTarget::Soniox)
    } else if crate::text::chars_equal(p.as_slice(), o.as_slice()) {
        Ok(KeyProbeTarget::OpenAi)
    } else if crate::text::chars_equal(p.as_slice(), l.as_slice()) {
        Ok(KeyProbeTarget::NoKeyNeeded)
    } else {
        let mut m = String::new();
        push_str(&mut m, "Provider không xác định: ");
        push_str(&mut m, provider);
        Err(m)
    }
}

/// `s` with every double quote preceded by a backslash.
pub open spec fn escape_quotes(s: Seq<char>) -> Seq<char>
    decreases s.len(),
{
    if s.len() == 0 {
        Seq::<char>::empty()
    } else if s.last() == '"' {
        escape_quotes(s.drop_last()) + seq!['\\', '"']
    } else {
        escape_quotes(s.drop_last()).push(s.last())
    }
}

/// The configuration message of the Soniox key test.
pub open spec fn soniox_probe_config(key: Seq<char>) -> Seq<char> {
    "{\"api_key\":\""@ + escape_quotes(key)
        + "\",\"model\":\"stt-rt-preview\",\"audio_format\":\"pcm_s16le\",\"sample_rate\":16000,\"num_channels\":1}"@
}

/// Builds the configuration message of the Soniox key test: the key (its
/// double quotes escaped) with the default model and 16 kHz mono PCM16.
pub fn soniox_probe_config_json(key: &str) -> (r: String)
    ensures
        r@ == soniox_probe_config(key@),
{
    let k = chars_of(key);
    let mut r = String::new();
    push_str(&mut r, "{\"api_key\":\"");
    let ghost start = r@;
    let mut i: usize = 0;
    while i < k.len()
        invariant
            i <= k@.len(),
            k@ == key@,
            r@ == start + escape_quotes(k@.take(i as int)),
        decreases k@.len() - i,
    {
        proof {
            assert(k@.take(i + 1).drop_last() =~= k@.take(i as int));
            assert(k@.take(i + 1).last() == k@[i as int]);
        }
        if k[i] == '"' {
            push_char(&mut r, '\\');
            push_char(&mut r, '"');
        } else {
            push_char(&mut r, k[i]);
        }
        proof {
            assert(r@ =~= start + escape_quotes(k@.take(i + 1)));
        }
        i = i + 1;
    }
    proof {
        assert(k@.take(k@.len() as int) =~= k@);
    }
    push_str(&mut r, "\",\"model\":\"stt-rt-preview\",\"audio_format\":\"pcm_s16le\",\"sample_rate\":16000,\"num_channels\":1}");
    proof {
        assert(r@ =~= soniox_probe_config(key@));
    }
    r
}

/// A step of the Soniox probe before any reply could come.
#[derive(Debug, Clone, Copy, PartialEq, Eq, Structural)]
pub enum SonioxProbeStage {
    Connect,
    SendConfig,
    SendAudio,
}

/// The message for a Soniox probe step that failed with error text `e`.
pub fn soniox_stage_error(stage: SonioxProbeStage, e: &str) -> (m: String)
    ensures
        m@ == match stage {
            SonioxProbeStage::Connect => "Không kết nối được tới Soniox: "@,
            SonioxProbeStage::SendConfig => "Gửi config thất bại: "@,
            SonioxProbeStage::SendAudio => "Gửi audio thất bại: "@,
        } + e@,
{
    let mut m = String::new();
    match stage {
        SonioxProbeStage::Connect => push_str(&mut m, "Không kết nối được tới Soniox: "),
        SonioxProbeStage::SendConfig => push_str(&mut m, "Gửi config thất bại: "),
        SonioxProbeStage::SendAudio => push_str(&mut m, "Gửi audio thất bại: "),
    }
    push_str(&mut m, e);
    m
}

/// A step of the OpenAI probe before any reply could come.
#[derive(Debug, Clone, Copy, PartialEq, Eq, Structural)]
pub enum OpenAiProbeStage {
    /// Building the request.
    Request,
    /// Putting the key into the authorization header.
    Header,
    /// Opening the socket.
    Connect,
}

/// An error text that reports HTTP 401.
pub open spec fn says_unauthorized(e: Seq<char>) -> bool {
    contains_seq(e, "401"@) || contains_seq(e, "Unauthorized"@)
}

/// The message for an OpenAI probe step that failed with error text `e`;
/// a refused connection that reports 401 is named as a bad key.
pub fn openai_stage_error(stage: OpenAiProbeStage, e: &str) -> (m: String)
    ensures
        m@ == match stage {
            OpenAiProbeStage::Request => "Lỗi tạo request: "@ + e@,
            OpenAiProbeStage::Header => "API key chứa ký tự không hợp lệ: "@ + e@,
            OpenAiProbeStage::Connect => if says_unauthorized(e@) {
                "API key OpenAI không hợp lệ (lỗi 401)"@
            } else {
                "Không kết nối được tới OpenAI: "@ + e@
            },
        },
{
    let mut m = String::new();
    match stage {
        OpenAiProbeStage::Request => {
            push_str(&mut m, "Lỗi tạo request: ");
            push_str(&mut m, e);
        },
        OpenAiProbeStage::Header => {
            push_str(&mut m, "API key chứa ký tự không hợp lệ: ");
            push_str(&mut m, e);
        },
        OpenAiProbeStage::Connect => {
            if str_contains(e, "401") || str_contains(e, "Unauthorized") {
                push_str(&mut m, "API key OpenAI không hợp lệ (lỗi 401)");
            } else {
                push_str(&mut m, "Không kết nối được tới OpenAI: ");
                push_str(&mut m, e);
            }
        },
    }
    m
}

/// What the provider's socket gave while the probe waited for a reply
/// (frames other than text and close are skipped by the reader).
#[derive(Debug)]
pub enum KeyProbeReply {
    /// A text message.
    Text(String),
    /// A close frame.
    Closed,
    /// A socket error, as text.
    Failed(String),
    /// The stream ended without a close frame.
    Ended,
    /// Nothing came within the wait.
    TimedOut,
}

/// Soniox's verdict on a reply's error fields: a non-empty error code is a
/// refusal with the error message (a default when there is none);
/// anything else accepts the key.
pub open spec fn soniox_verdict(error_code: Option<Seq<char>>, error_message: Option<Seq<char>>) -> Result<(), Seq<char>> {
    match error_code {
        Some(c) => if c.len() > 0 {
            Err(
                "Soniox từ chối API key: "@ + match error_message {
                    Some(m) => m,
                    None => "Lỗi xác thực"@,
                },
            )
        } else {
            Ok(())
        },
        None => Ok(()),
    }
}

pub open spec fn result_view(r: Result<(), String>) -> Result<(), Seq<char>> {
    match r {
        Ok(()) => Ok(()),
        Err(m) => Err(m@),
    }
}

/// Decides the Soniox test from the error fields of a text reply (see
/// `soniox_verdict`).
pub fn soniox_verdict_from(error_code: Option<String>, error_message: Option<String>) -> (r: Result<(), String>)
    ensures
        result_view(r) == soniox_verdict(opt_seq(error_code), opt_seq(error_message)),
{
    match error_code {
        Some(c) => {
            if c.as_str().is_empty() {
                Ok(())
            } else {
                let mut m = String::new();
                push_str(&mut m, "Soniox từ chối API key: ");
                match error_message {
                    Some(e) => push_str(&mut m, e.as_str()),
                    None => push_str(&mut m, "Lỗi xác thực"),
                }
                Err(m)
            }
        },
        None => Ok(()),
    }
}

/// The Soniox test's verdict on what its socket gave.
pub open spec fn soniox_reply_verdict(reply: KeyProbeReply) -> Result<(), Seq<char>> {
    match reply {
        KeyProbeReply::Text(t) => soniox_verdict(json_string_at(t@, "/error_code"@), json_string_at(t@, "/error_message"@)),
        KeyProbeReply::Closed => Err("Soniox đóng kết nối sớm — API key có thể không hợp lệ"@),
        KeyProbeReply::Failed(e) => Err("Lỗi kết nối Soniox: "@ + e@),
        KeyProbeReply::Ended => Err("Kết nối Soniox bị đóng"@),
        KeyProbeReply::TimedOut => Ok(()),
    }
}

/// Decides the Soniox key test from what its socket gave: a text reply
/// is read as JSON for an error code; a close, an error or the end of the
/// stream fails; silence within the wait accepts the key.
pub fn soniox_key_verdict(reply: &KeyProbeReply) -> (r: Result<(), String>)
    ensures
        result_view(r) == soniox_reply_verdict(*reply),
{
    match reply {
        KeyProbeReply::Text(t) => {
            let code = json_string_field(t.as_str(), "/error_code");
            let message = json_string_field(t.as_str(), "/error_message");
            proof {
                reveal_strlit("/error_code");
                reveal_strlit("/error_message");
            }
            soniox_verdict_from(code, message)
        },
        KeyProbeReply::Closed => {
            let mut m = String::new();
            push_str(&mut m, "Soniox đóng kết nối sớm — API key có thể không hợp lệ");
            Err(m)
        },
        KeyProbeReply::Failed(e) => {
            let mut m = String::new();
            push_str(&mut m, "Lỗi kết nối Soniox: ");
            push_str(&mut m, e.as_str());
            Err(m)
        },
        KeyProbeReply::Ended => {
            let mut m = String::new();
            push_str(&mut m, "Kết nối Soniox bị đóng");
            Err(m)
        },
        KeyProbeReply::TimedOut => Ok(()),
    }
}

/// OpenAI's verdict on a reply's event type: an `error` event is a refusal
/// with the error's message (a default when there is none); any other
/// reply, a `session…` event among them, accepts the key.
pub open spec fn openai_verdict(event_type: Option<Seq<char>>, error_message: Option<Seq<char>>) -> Result<(), Seq<char>> {
    if event_type == Some("error"@) {
        Err(
            "OpenAI từ chối: "@ + match error_message {
                Some(m) => m,
                None => "Lỗi xác thực OpenAI"@,
            },
        )
    } else {
        Ok(())
    }
}

/// Decides the OpenAI test from the fields of a text reply (see
/// `openai_verdict`).
pub fn openai_verdict_from(event_type: Option<String>, error_message: Option<String>) -> (r: Result<(), String>)
    ensures
        result_view(r) == openai_verdict(opt_seq(event_type), opt_seq(error_message)),
{
    let is_error = match &event_type {
        Some(t) => {
            let tc = chars_of(t.as_str());
            let ec = chars_of("error");
            crate::text::chars_equal(tc.as_slice(), ec.as_slice())
        },
        None => false,
    };
    if is_error {
        let mut m = String::new();
        push_str(&mut m, "OpenAI từ chối: ");
        match error_message {
            Some(e) => push_str(&mut m, e.as_str()),
            None => push_str(&mut m, "Lỗi xác thực OpenAI"),
        }
        Err(m)
    } else {
        Ok(())
    }
}

/// The OpenAI test's verdict on what its socket gave.
pub open spec fn openai_reply_verdict(reply: KeyProbeReply) -> Result<(), Seq<char>> {
    match reply {
        KeyProbeReply::Text(t) => openai_verdict(json_string_at(t@, "/type"@), json_string_at(t@, "/error/message"@)),
        KeyProbeReply::Closed => Err("OpenAI đóng kết nối — API key có thể không hợp lệ"@),
        KeyProbeReply::Failed(e) => if says_unauthorized(e@) {
            Err("API key OpenAI không hợp lệ (lỗi 401)"@)
        } else {
            Err("Lỗi kết nối OpenAI: "@ + e@)
        },
        KeyProbeReply::Ended => Err("Kết nối OpenAI bị đóng"@),
        KeyProbeReply::TimedOut => Ok(()),
    }
}

/// Decides the OpenAI key test from what its socket gave: a text reply is
/// read as JSON for its event type; a close or the end of the stream
/// fails, an error reporting 401 is named as a bad key; silence within the
/// wait accepts the key.
pub fn openai_key_verdict(reply: &KeyProbeReply) -> (r: Result<(), String>)
    ensures
        result_view(r) == openai_reply_verdict(*reply),
{
    match reply {
        KeyProbeReply::Text(t) => {
            let ty = json_string_field(t.as_str(), "/type");
            let message = json_string_field(t.as_str(), "/error/message");
            proof {
                reveal_strlit("/type");
                reveal_strlit("/error/message");
            }
            openai_verdict_from(ty, message)
        },
        KeyProbeReply::Closed => {
            let mut m = String::new();
            push_str(&mut m, "OpenAI đóng kết nối — API key có thể không hợp lệ");
            Err(m)
        },
        KeyProbeReply::Failed(e) => {
            let mut m = String::new();
            if str_contains(e.as_str(), "401") || str_contains(e.as_str(), "Unauthorized") {
                push_str(&mut m, "API key OpenAI không hợp lệ (lỗi 401)");
            } else {
                push_str(&mut m, "Lỗi kết nối OpenAI: ");
                push_str(&mut m, e.as_str());
            }
            Err(m)
        },
        KeyProbeReply::Ended => {
            let mut m = String::new();
            push_str(&mut m, "Kết nối OpenAI bị đóng");
            Err(m)
        },
        KeyProbeReply::TimedOut => Ok(()),
    }
}

} // verus!
