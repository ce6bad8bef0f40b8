//! Opt-in settings kept in one-word files (crash reporting, session
//! summaries, update checks) and the update check's version handling.
use crate::format::{push_str, string_from_chars};
use crate::text::{chars_equal, chars_of, lines_of, split_lines, trim, trim_chars};
use vstd::prelude::*;

verus! {

// ---------------------------------------------------------------- crash reporting

/// Crash-reporting endpoint; it stays a placeholder until a real one is set.
pub const SENTRY_DSN: &'static str = "REPLACE-ME-WITH-VONG-OWNED-DSN-https://public@oXXXX.ingest.sentry.io/XXXX";

/// Crash-reporting consent.
#[derive(Debug, Clone, Copy, PartialEq, Eq, Structural)]
pub enum ConsentState {
    Enabled,
    Disabled,
    /// No decision recorded; reporting stays off.
    Absent,
}

/// The consent a file's content records.
pub open spec fn consent_of(content: Option<Seq<char>>) -> ConsentState {
    match content {
        None => ConsentState::Absent,
        Some(c) => if trim(c) == "enabled"@ {
            ConsentState::Enabled
        } else if trim(c) == "disabled"@ {
            ConsentState::Disabled
        } else {
            ConsentState::Absent
        },
    }
}

/// The one-word flag a file's content holds: `Some(true)` for `enabled`,
/// `Some(false)` for `disabled` (around whitespace), else `None`.
pub open spec fn flag_of(content: Seq<char>) -> Option<bool> {
    if trim(content) == "enabled"@ {
        Some(true)
    } else if trim(content) == "disabled"@ {
        Some(false)
    } else {
        None
    }
}

fn read_flag(content: &str) -> (r: Option<bool>)
    ensures
        r == flag_of(content@),
{
    let cs = chars_of(content);
    let t = trim_chars(cs.as_slice());
    let en = chars_of("enabled");
    let dis = chars_of("disabled");
    if chars_equal(t.as_slice(), en.as_slice()) {
        Some(true)
    } else if chars_equal(t.as_slice(), dis.as_slice()) {
        Some(false)
    } else {
        None
    }
}

/// Reads the crash-reporting consent from the consent file's content
/// (`None` when the file is missing).
pub fn load_consent(content: Option<&str>) -> (s: ConsentState)
    ensures
        s == consent_of(match content {
            Some(c) => Some(c@),
            None => None,
        }),
{
    match content {
        None => ConsentState::Absent,
        Some(c) => match read_flag(c) {
            Some(true) => ConsentState::Enabled,
            Some(false) => ConsentState::Disabled,
            None => ConsentState::Absent,
        },
    }
}

/// What saving a consent writes to the file; `None` for `Absent`, which
/// leaves the file alone.
pub fn consent_file_content(state: ConsentState) -> (r: Option<&'static str>)
    ensures
        match state {
            ConsentState::Enabled => r.is_some() && r.unwrap()@ == "enabled\n"@,
            ConsentState::Disabled => r.is_some() && r.unwrap()@ == "disabled\n"@,
            ConsentState::Absent => r.is_none(),
        },
{
    match state {
        ConsentState::Enabled => Some("enabled\n"),
        ConsentState::Disabled => Some("disabled\n"),
        ConsentState::Absent => None,
    }
}

/// The consent written for a state reads back as that state.
pub proof fn lemma_consent_roundtrip(state: ConsentState)
    requires
        state != ConsentState::Absent,
    ensures
        consent_of(Some(if state == ConsentState::Enabled { "enabled\n"@ } else { "disabled\n"@ })) == state,
{
    reveal_strlit("enabled\n");
    reveal_strlit("disabled\n");
    reveal_strlit("enabled");
    reveal_strlit("disabled");
    let w = if state == ConsentState::Enabled { "enabled"@ } else { "disabled"@ };
    let s = w.push('\n');
    assert(s =~= if state == ConsentState::Enabled { "enabled\n"@ } else { "disabled\n"@ });
    assert(s.drop_last() =~= w);
    assert(crate::text::trim_end(s) == crate::text::trim_end(w));
    crate::text::lemma_trim_of_unpadded(w);
    assert(crate::text::trim_start(s) == s);
    assert(trim(s) == w);
    if state == ConsentState::Enabled {
        assert(trim(s) != "disabled"@ || w == "disabled"@);
    } else {
        assert(w != "enabled"@) by {
            assert(w.len() != "enabled"@.len());
        }
    }
}

/// `p` occurs in `s`.
pub open spec fn contains_seq(s: Seq<char>, p: Seq<char>) -> bool {
    exists|i: int| 0 <= i && i + p.len() <= s.len() && #[trigger] s.subrange(i, i + p.len()) == p
}

/// True when `p` occurs in `s`.
pub fn str_contains(s: &str, p: &str) -> (b: bool)
    ensures
        b == contains_seq(s@, p@),
{
    let sc = chars_of(s);
    let pc = chars_of(p);
    if pc.len() > sc.len() {
        proof {
            assert forall|i: int| 0 <= i && i + pc@.len() <= sc@.len() implies #[trigger] sc@.subrange(i, i + pc@.len()) != pc@ by {}
        }
        return false;
    }
    let last = sc.len() - pc.len();
    let n = sc.len();
    let mut i: usize = 0;
    while i < last
        invariant
            sc@ == s@,
            pc@ == p@,
            n == sc@.len(),
            pc@.len() <= sc@.len(),
            last == sc@.len() - pc@.len(),
            i <= last,
            forall|k: int| 0 <= k < i ==> #[trigger] sc@.subrange(k, k + pc@.len()) != pc@,
        decreases last - i,
    {
        let tail = &sc.as_slice()[i..n];
        let hit = crate::text::starts_with_chars(tail, pc.as_slice());
        proof {
            assert(tail@.subrange(0, pc@.len() as int) =~= sc@.subrange(i as int, i + pc@.len()));
        }
        if hit {
            return true;
        }
        i = i + 1;
    }
    let tail = &sc.as_slice()[last..n];
    let hit = crate::text::starts_with_chars(tail, pc.as_slice());
    proof {
        assert(tail@.subrange(0, pc@.len() as int) =~= sc@.subrange(last as int, last + pc@.len()));
        if !hit {
            assert forall|k: int| 0 <= k && k + pc@.len() <= sc@.len() implies #[trigger] sc@.subrange(k, k + pc@.len()) != pc@ by {
                if k < last {
                    assert(k < i);
                }
            }
        }
    }
    hit
}

/// Crash reporting starts only with consent and a real endpoint.
pub fn should_init_crash_reporting(consent: ConsentState, dsn: &str) -> (b: bool)
    ensures
        b == (consent == ConsentState::Enabled && !contains_seq(dsn@, "REPLACE-ME"@)),
{
    match consent {
        ConsentState::Enabled => !str_contains(dsn, "REPLACE-ME"),
        _ => false,
    }
}

/// The parts of a crash report that the scrubber reads and changes.
#[derive(Debug)]
pub struct CrashEvent {
    /// Host name of the machine.
    pub server_name: Option<String>,
    /// User name, when the reporting library filled one in.
    pub user: Option<String>,
    /// Free-form extra data.
    pub extra: Vec<(String, String)>,
    /// Tags, as key and value.
    pub tags: Vec<(String, String)>,
    pub message: Option<String>,
    /// The value of each recorded exception.
    pub exception_values: Vec<Option<String>>,
}

/// Longest message, in characters, that leaves the machine as it is.
pub const MAX_REPORTED_CHARS: usize = 200;

/// Text sent in place of an oversized message.
pub const REDACTED: &'static str = "[redacted payload]";

/// A message as it is reported: replaced by the redaction marker when it
/// is longer than 200 characters.
pub open spec fn redacted(m: Seq<char>) -> Seq<char> {
    if m.len() > MAX_REPORTED_CHARS {
        REDACTED@
    } else {
        m
    }
}

pub open spec fn opt_redacted(m: Option<String>) -> Option<Seq<char>> {
    match m {
        Some(s) => Some(redacted(s@)),
        None => None,
    }
}

/// The tag keys a report keeps.
pub open spec fn kept_tag(key: Seq<char>) -> bool {
    key == "environment"@ || key == "release"@
}

pub open spec fn tag_views(tags: Seq<(String, String)>) -> Seq<(Seq<char>, Seq<char>)> {
    tags.map_values(|t: (String, String)| (t.0@, t.1@))
}

fn redact(m: &String) -> (r: String)
    ensures
        r@ == redacted(m@),
{
    if chars_of(m.as_str()).len() > MAX_REPORTED_CHARS {
        let mut r = String::new();
        push_str(&mut r, REDACTED);
        r
    } else {
        m.clone()
    }
}

fn same(a: &str, b: &str) -> (r: bool)
    ensures
        r == (a@ == b@),
{
    let x = chars_of(a);
    let y = chars_of(b);
    chars_equal(x.as_slice(), y.as_slice())
}

/// Scrubs a crash report before it leaves the machine: no host name, no
/// user, no extra data, only the `environment` and `release` tags, and
/// oversized messages and exception values replaced by a marker. The
/// report is always sent.
pub fn before_send(event: CrashEvent) -> (r: Option<CrashEvent>)
    ensures
        r.is_some(),
        r.unwrap().server_name.is_none(),
        r.unwrap().user.is_none(),
        r.unwrap().extra@.len() == 0,
        tag_views(r.unwrap().tags@) == tag_views(event.tags@).filter(|t: (Seq<char>, Seq<char>)| kept_tag(t.0)),
        opt_redacted(event.message) == match r.unwrap().message {
            Some(s) => Some(s@),
            None => None,
        },
        r.unwrap().exception_values@.len() == event.exception_values@.len(),
        forall|i: int|
            0 <= i < event.exception_values@.len() ==> opt_redacted(#[trigger] event.exception_values@[i])
                == match r.unwrap().exception_values@[i] {
                Some(s) => Some(s@),
                None => None,
            },
{
    let mut tags: Vec<(String, String)> = Vec::new();
    let mut i: usize = 0;
    let ghost all = tag_views(event.tags@);
    while i < event.tags.len()
        invariant
            i <= event.tags@.len(),
            all == tag_views(event.tags@),
            tag_views(tags@) == all.take(i as int).filter(|t: (Seq<char>, Seq<char>)| kept_tag(t.0)),
        decreases event.tags@.len() - i,
    {
        let (k, v) = &event.tags[i];
        proof {
            reveal(Seq::filter);
            assert(all.take(i + 1).drop_last() =~= all.take(i as int));
            assert(all.take(i + 1).last() == (k@, v@));
        }
        if same(k.as_str(), "environment") || same(k.as_str(), "release") {
            tags.push((k.clone(), v.clone()));
            proof {
                assert(tag_views(tags@) =~= all.take(i as int).filter(|t: (Seq<char>, Seq<char>)| kept_tag(t.0)).push((k@, v@)));
            }
        } else {
            proof {
                assert(tag_views(tags@) =~= all.take(i as int).filter(|t: (Seq<char>, Seq<char>)| kept_tag(t.0)));
            }
        }
        i = i + 1;
    }
    proof {
        assert(all.take(all.len() as int) =~= all);
    }
    let message = match &event.message {
        Some(m) => Some(redact(m)),
        None => None,
    };
    let mut values: Vec<Option<String>> = Vec::new();
    let mut j: usize = 0;
    while j < event.exception_values.len()
        invariant
            j <= event.exception_values@.len(),
            values@.len() == j,
            forall|k: int|
                0 <= k < j ==> opt_redacted(#[trigger] event.exception_values@[k]) == match values@[k] {
                    Some(s) => Some(s@),
                    None => None,
                },
        decreases event.exception_values@.len() - j,
    {
        let v = match &event.exception_values[j] {
            Some(m) => Some(redact(m)),
            None => None,
        };
        values.push(v);
        j = j + 1;
    }
    Some(CrashEvent {
        server_name: None,
        user: None,
        extra: Vec::new(),
        tags,
        message,
        exception_values: values,
    })
}

// ---------------------------------------------------------------- session summaries

/// Reads the session-summary flag from its file's content (`None` when
/// the file is missing or says something else).
pub fn load_consent_raw(content: Option<&str>) -> (r: Option<bool>)
    ensures
        r == match content {
            Some(c) => flag_of(c@),
            None => None,
        },
{
    match content {
        Some(c) => read_flag(c),
        None => None,
    }
}

/// Summaries run when an OpenAI key is present, unless the file says
/// `disabled`.
pub fn should_auto_summarize(file_value: Option<bool>, key_present: bool) -> (b: bool)
    ensures
        b == match file_value {
            Some(false) => false,
            _ => key_present,
        },
{
    match file_value {
        Some(true) => key_present,
        Some(false) => false,
        None => key_present,
    }
}

/// The session-summary file's content for a choice.
pub fn summary_consent_content(enabled: bool) -> (s: &'static str)
    ensures
        s@ == if enabled { "enabled"@ } else { "disabled"@ },
{
    if enabled {
        "enabled"
    } else {
        "disabled"
    }
}

// ---------------------------------------------------------------- update checks

/// Base address of the update files.
pub const DEFAULT_R2_BASE: &'static str = "https://dl.vong.app";

/// Download page shown when an update exists.
pub const DOWNLOAD_LANDING_URL: &'static str = "https://vong.app/";

/// Least time between two automatic checks, in seconds (four hours).
pub const THROTTLE_SECS: i64 = 4 * 60 * 60;

/// Address of the version file under a base address.
pub fn version_url(base: &str) -> (u: String)
    ensures
        u@ == base@ + "/latest/version.txt"@,
{
    let mut u = String::new();
    push_str(&mut u, base);
    push_str(&mut u, "/latest/version.txt");
    u
}

/// An automatic check is due when none was made yet (`last == 0`) or four
/// hours have passed since the last one.
pub fn should_check(last_check_secs: i64, now_secs: i64) -> (b: bool)
    requires
        i64::MIN <= now_secs - last_check_secs <= i64::MAX,
    ensures
        b == (last_check_secs == 0 || now_secs - last_check_secs >= THROTTLE_SECS),
{
    if last_check_secs == 0 {
        return true;
    }
    (now_secs - last_check_secs) >= THROTTLE_SECS
}

/// Whole seconds since the Unix epoch on the wall clock, cast to a signed
/// count (0 when the clock reads earlier than the epoch).
pub fn now_epoch_secs() -> (s: i64) {
    let secs = crate::clock::unix_now_secs();
    #[verifier::truncate]
    (secs as i64)
}

/// Update checks are on unless the file says `disabled`; a missing file
/// means on.
pub fn auto_update_enabled_from(content: Option<&str>) -> (b: bool)
    ensures
        b == match content {
            None => true,
            Some(c) => trim(c@) != "disabled"@,
        },
{
    match content {
        None => true,
        Some(c) => {
            let cs = chars_of(c);
            let t = trim_chars(cs.as_slice());
            let dis = chars_of("disabled");
            !chars_equal(t.as_slice(), dis.as_slice())
        },
    }
}

/// A finished version check.
#[derive(Debug, PartialEq, Eq)]
pub struct UpdateInfo {
    pub current: String,
    pub latest: String,
    /// The latest version is newer than the running one.
    pub is_newer: bool,
    pub download_landing_url: String,
}

/// Why a version check failed.
#[derive(Debug, PartialEq, Eq)]
pub enum UpdateError {
    Network(String),
    Parse(String),
}

impl UpdateError {
    /// The error's message.
    pub fn message(&self) -> (m: String)
        ensures
            m@ == match *self {
                UpdateError::Network(d) => "network error: "@ + d@,
                UpdateError::Parse(d) => "version parse error: "@ + d@,
            },
    {
        let mut m = String::new();
        match self {
            UpdateError::Network(d) => {
                push_str(&mut m, "network error: ");
                push_str(&mut m, d.as_str());
            },
            UpdateError::Parse(d) => {
                push_str(&mut m, "version parse error: ");
                push_str(&mut m, d.as_str());
            },
        }
        m
    }
}

/// What `semver::Version::parse` makes of a text: `Ok` with the version's
/// canonical `Display` text, or `Err` with the parse error's `Display` text.
pub uninterp spec fn semver_parse_result(s: Seq<char>) -> Result<Seq<char>, Seq<char>>;

/// Calls `semver::Version::parse` and formats the version, or the error,
/// with `Display`. The result is named, not described.
#[verifier::external_body]
fn parse_semver(s: &str) -> (r: Result<String, String>)
    ensures
        match (r, semver_parse_result(s@)) {
            (Ok(v), Ok(w)) => v@ == w,
            (Err(e), Err(f)) => e@ == f,
            _ => false,
        },
{
    match semver::Version::parse(s) {
        Ok(v) => Ok(v.to_string()),
        Err(e) => Err(e.to_string()),
    }
}

/// Whether `semver` orders the version written `a` above the one written
/// `b` (both parse).
pub uninterp spec fn semver_greater(a: Seq<char>, b: Seq<char>) -> bool;

/// Calls `semver::Version::parse` on both texts and compares them with
/// `>`; the texts parse, as the caller checked. The result is named.
#[verifier::external_body]
fn semver_is_greater(a: &str, b: &str) -> (r: bool)
    requires
        semver_parse_result(a@) is Ok,
        semver_parse_result(b@) is Ok,
    ensures
        r == semver_greater(a@, b@),
{
    match (semver::Version::parse(a), semver::Version::parse(b)) {
        (Ok(x), Ok(y)) => x > y,
        _ => false,
    }
}

/// The first line of `ls` whose trimmed text is not empty, trimmed.
pub open spec fn first_nonempty_line(ls: Seq<Seq<char>>) -> Option<Seq<char>>
    decreases ls.len(),
{
    if ls.len() == 0 {
        None
    } else if trim(ls[0]).len() > 0 {
        Some(trim(ls[0]))
    } else {
        first_nonempty_line(ls.drop_first())
    }
}

/// What the version file's content gives: its first nonempty line,
/// trimmed and validated as a semantic version, in canonical form.
pub open spec fn version_txt_result(body: Seq<char>) -> Result<Seq<char>, Seq<char>> {
    match first_nonempty_line(split_lines(body)) {
        None => Err("version.txt is empty"@),
        Some(line) => match semver_parse_result(line) {
            Ok(v) => Ok(v),
            Err(e) => Err("'"@ + line + "': "@ + e),
        },
    }
}

/// Reads the latest version out of the version file's content.
pub fn parse_version_txt(body: &str) -> (r: Result<String, UpdateError>)
    ensures
        match (r, version_txt_result(body@)) {
            (Ok(v), Ok(w)) => v@ == w,
            (Err(UpdateError::Parse(e)), Err(f)) => e@ == f,
            _ => false,
        },
{
    let cs = chars_of(body);
    let lines = lines_of(cs.as_slice());
    let mut i: usize = 0;
    let ghost ls = split_lines(body@);
    proof {
        assert(ls.subrange(0, ls.len() as int) =~= ls);
    }
    while i < lines.len()
        invariant
            lines@.len() == ls.len(),
            ls == split_lines(body@),
            forall|k: int| 0 <= k < lines@.len() ==> #[trigger] lines@[k]@ == ls[k],
            i <= lines@.len(),
            first_nonempty_line(ls) == first_nonempty_line(ls.subrange(i as int, ls.len() as int)),
        decreases lines@.len() - i,
    {
        let t = trim_chars(lines[i].as_slice());
        proof {
            let rest = ls.subrange(i as int, ls.len() as int);
            assert(rest[0] == ls[i as int]);
            assert(rest.drop_first() =~= ls.subrange(i + 1, ls.len() as int));
        }
        if t.len() > 0 {
            let line = string_from_chars(t.as_slice());
            return match parse_semver(line.as_str()) {
                Ok(v) => Ok(v),
                Err(e) => {
                    let mut m = String::new();
                    push_str(&mut m, "'");
                    push_str(&mut m, line.as_str());
                    push_str(&mut m, "': ");
                    push_str(&mut m, e.as_str());
                    Err(UpdateError::Parse(m))
                },
            };
        }
        i = i + 1;
    }
    let mut m = String::new();
    push_str(&mut m, "version.txt is empty");
    Err(UpdateError::Parse(m))
}

/// The outcome of a check, given the fetched version file and the running
/// version: the latest version, and whether it is newer.
pub open spec fn update_result(body: Seq<char>, current: Seq<char>) -> Result<(Seq<char>, Seq<char>, bool), Seq<char>> {
    match version_txt_result(body) {
        Err(e) => Err(e),
        Ok(latest) => match semver_parse_result(current) {
            Err(e) => Err("current version invalid: "@ + e),
            Ok(_) => match semver_parse_result(latest) {
                Err(e) => Err("remote version invalid: "@ + e),
                Ok(_) => Ok((current, latest, semver_greater(latest, current))),
            },
        },
    }
}

/// Compares the fetched version file against the running version.
pub fn update_info_from(body: &str, current: &str) -> (r: Result<UpdateInfo, UpdateError>)
    ensures
        match (r, update_result(body@, current@)) {
            (Ok(info), Ok((c, l, newer))) => {
                &&& info.current@ == c
                &&& info.latest@ == l
                &&& info.is_newer == newer
                &&& info.download_landing_url@ == DOWNLOAD_LANDING_URL@
            },
            (Err(UpdateError::Parse(e)), Err(f)) => e@ == f,
            _ => false,
        },
{
    let latest = match parse_version_txt(body) {
        Ok(v) => v,
        Err(e) => return Err(e),
    };
    match parse_semver(current) {
        Err(e) => {
            let mut m = String::new();
            push_str(&mut m, "current version invalid: ");
            push_str(&mut m, e.as_str());
            return Err(UpdateError::Parse(m));
        },
        Ok(_) => {},
    }
    match parse_semver(latest.as_str()) {
        Err(e) => {
            let mut m = String::new();
            push_str(&mut m, "remote version invalid: ");
            push_str(&mut m, e.as_str());
            return Err(UpdateError::Parse(m));
        },
        Ok(_) => {},
    }
    let is_newer = semver_is_greater(latest.as_str(), current);
    let mut c = String::new();
    push_str(&mut c, current);
    let mut url = String::new();
    push_str(&mut url, DOWNLOAD_LANDING_URL);
    Ok(UpdateInfo { current: c, latest, is_newer, download_landing_url: url })
}

} // verus!
