//! Transcript storage records, Unicode normalization, search-query
//! construction and transcript export formats.
//!
//! The database itself is driven by the application; the library holds
//! the records and the text they are turned into.
use crate::format::{
    decimal, int_decimal, push_char, push_i64, push_signed_padded, push_str, push_u64,
    signed_zero_pad, tdiv, trem, div_rem_i64, zero_pad,
};
use crate::text::{chars_of, is_whitespace, is_ws, trim, trim_chars};
use unicode_normalization::UnicodeNormalization;
use vstd::prelude::*;

verus! {

/// Library version.
pub fn version() -> (v: &'static str)
    ensures
        v@ == "0.1.0"@,
{
    "0.1.0"
}

/// A session to insert (the database assigns its id).
#[derive(Debug)]
pub struct NewSession {
    /// Recording start, epoch milliseconds (UTC).
    pub started_at_ms: i64,
    /// "mic", "loopback" or "mixed".
    pub audio_source: String,
    /// Speech-recognition provider.
    pub provider: String,
    /// Language detected so far.
    pub detected_language: Option<String>,
    /// Metadata as JSON.
    pub meta_json: Option<String>,
}

/// A stored session.
#[derive(Debug)]
pub struct Session {
    pub id: i64,
    pub started_at_ms: i64,
    /// End, while the session is finished.
    pub ended_at_ms: Option<i64>,
    /// Duration, once the session is finished.
    pub duration_ms: Option<i64>,
    pub audio_source: String,
    pub provider: String,
    pub detected_language: Option<String>,
    pub audio_path: Option<String>,
    pub meta_json: Option<String>,
}

/// A stored transcript segment, times relative to the session start.
#[derive(Debug)]
pub struct Segment {
    pub id: i64,
    pub session_id: i64,
    pub seq: i64,
    pub start_ms: i64,
    pub end_ms: i64,
    pub speaker_label: Option<String>,
    /// Text, NFC-normalized.
    pub text: String,
    pub language: Option<String>,
    pub is_final: bool,
}

/// A summary to insert.
#[derive(Debug)]
pub struct NewSummary {
    pub session_id: i64,
    /// `"session"` for end-of-session summaries.
    pub kind: String,
    pub llm_provider: Option<String>,
    pub llm_model: Option<String>,
    pub content: String,
}

/// A stored summary.
#[derive(Debug)]
pub struct Summary {
    pub id: i64,
    pub session_id: i64,
    pub kind: String,
    pub llm_provider: Option<String>,
    pub llm_model: Option<String>,
    pub content: String,
    pub created_at_ms: i64,
}

/// A full-text search hit.
#[derive(Debug)]
pub struct SearchHit {
    pub session_id: i64,
    pub session_started_at_ms: i64,
    pub language: Option<String>,
    pub text: String,
    pub start_ms: i64,
    /// Snippet with `<b>…</b>` around the matches.
    pub snippet: String,
}

/// What `unicode_normalization`'s NFC composition makes of a text.
pub uninterp spec fn nfc(s: Seq<char>) -> Seq<char>;

/// Calls `UnicodeNormalization::nfc` from `unicode_normalization` and
/// collects it: the text in Unicode Normalization Form C. The result is
/// named, not described.
#[verifier::external_body]
pub fn normalize(text: &str) -> (r: String)
    ensures
        r@ == nfc(text@),
{
    text.nfc().collect()
}

/// The whitespace-separated words of `s`, as `str::split_whitespace`
/// gives them.
pub open spec fn words(s: Seq<char>) -> Seq<Seq<char>>
    decreases s.len(),
{
    if s.len() == 0 {
        Seq::<Seq<char>>::empty()
    } else {
        let rest = words(s.drop_last());
        let c = s.last();
        if is_ws(c) {
            rest
        } else if s.len() >= 2 && !is_ws(s[s.len() - 2]) {
            rest.update(rest.len() - 1, rest.last().push(c))
        } else {
            rest.push(seq![c])
        }
    }
}

proof fn lemma_words_nonempty_after_word_char(s: Seq<char>)
    requires
        s.len() >= 1,
        !is_ws(s.last()),
    ensures
        words(s).len() >= 1,
    decreases s.len(),
{
    if s.len() >= 2 && !is_ws(s[s.len() - 2]) {
        let t = s.drop_last();
        assert(t.last() == s[s.len() - 2]);
        lemma_words_nonempty_after_word_char(t);
    }
}

/// `t` with every double quote doubled.
pub open spec fn double_quotes(t: Seq<char>) -> Seq<char>
    decreases t.len(),
{
    if t.len() == 0 {
        t
    } else {
        let rest = double_quotes(t.drop_last());
        if t.last() == '"' {
            rest + seq!['"', '"']
        } else {
            rest.push(t.last())
        }
    }
}

/// A search word as a quoted FTS5 string.
pub open spec fn fts_token(t: Seq<char>) -> Seq<char> {
    seq!['"'] + double_quotes(t) + seq!['"']
}

/// The words joined by `" AND "`.
pub open spec fn and_join(ws: Seq<Seq<char>>) -> Seq<char>
    decreases ws.len(),
{
    if ws.len() == 0 {
        Seq::<char>::empty()
    } else if ws.len() == 1 {
        fts_token(ws[0])
    } else {
        and_join(ws.drop_last()) + " AND "@ + fts_token(ws.last())
    }
}

/// Quotes one search word for FTS5.
pub fn escape_fts_token(token: &str) -> (r: String)
    ensures
        r@ == fts_token(token@),
{
    let cs = chars_of(token);
    escape_chars(cs.as_slice())
}

fn escape_chars(cs: &[char]) -> (r: String)
    ensures
        r@ == fts_token(cs@),
{
    let mut r = String::new();
    push_char(&mut r, '"');
    let mut i: usize = 0;
    while i < cs.len()
        invariant
            i <= cs@.len(),
            r@ == seq!['"'] + double_quotes(cs@.take(i as int)),
        decreases cs@.len() - i,
    {
        proof {
            assert(cs@.take(i + 1).drop_last() =~= cs@.take(i as int));
            assert(cs@.take(i + 1).last() == cs@[i as int]);
        }
        if cs[i] == '"' {
            push_char(&mut r, '"');
            push_char(&mut r, '"');
        } else {
            push_char(&mut r, cs[i]);
        }
        proof {
            assert(r@ =~= seq!['"'] + double_quotes(cs@.take(i + 1)));
        }
        i = i + 1;
    }
    push_char(&mut r, '"');
    proof {
        assert(cs@.take(cs@.len() as int) =~= cs@);
        assert(r@ =~= fts_token(cs@));
    }
    r
}

fn split_words(s: &[char]) -> (r: Vec<Vec<char>>)
    ensures
        r@.len() == words(s@).len(),
        forall|i: int| 0 <= i < r@.len() ==> #[trigger] r@[i]@ == words(s@)[i],
{
    let mut done: Vec<Vec<char>> = Vec::new();
    let mut cur: Vec<char> = Vec::new();
    let mut in_word = false;
    let mut i: usize = 0;
    while i < s.len()
        invariant
            i <= s@.len(),
            in_word == (i > 0 && !is_ws(s@[i - 1])),
            in_word ==> {
                &&& done@.len() + 1 == words(s@.take(i as int)).len()
                &&& cur@ == words(s@.take(i as int)).last()
            },
            !in_word ==> done@.len() == words(s@.take(i as int)).len() && cur@.len() == 0,
            forall|k: int| 0 <= k < done@.len() ==> #[trigger] done@[k]@ == words(s@.take(i as int))[k],
        decreases s@.len() - i,
    {
        let c = s[i];
        proof {
            assert(s@.take(i + 1).drop_last() =~= s@.take(i as int));
            assert(s@.take(i + 1).last() == c);
            if i >= 1 {
                assert(s@.take(i + 1)[i - 1] == s@[i - 1]);
            }
            if in_word {
                lemma_words_nonempty_after_word_char(s@.take(i as int));
            }
        }
        if is_whitespace(c) {
            if in_word {
                let w = cur;
                done.push(w);
                cur = Vec::new();
            }
            in_word = false;
        } else {
            cur.push(c);
            in_word = true;
        }
        i = i + 1;
    }
    if in_word {
        done.push(cur);
    }
    proof {
        assert(s@.take(s@.len() as int) =~= s@);
    }
    done
}

/// Why a search query was refused.
#[derive(Debug, Clone, Copy, PartialEq, Eq, Structural)]
pub enum SearchQueryError {
    /// Nothing is left after trimming and normalizing.
    Empty,
    /// No word is left.
    OnlyWhitespace,
}

impl SearchQueryError {
    /// The message the storage layer reports.
    pub fn message(self) -> (m: &'static str)
        ensures
            m@ == match self {
                SearchQueryError::Empty => "query is empty"@,
                SearchQueryError::OnlyWhitespace => "query contained only whitespace"@,
            },
    {
        match self {
            SearchQueryError::Empty => "query is empty",
            SearchQueryError::OnlyWhitespace => "query contained only whitespace",
        }
    }
}

/// The FTS5 match expression for a normalized query: every word quoted,
/// all of them required.
pub open spec fn fts_query_of(normalized: Seq<char>) -> Result<Seq<char>, SearchQueryError> {
    if normalized.len() == 0 {
        Err(SearchQueryError::Empty)
    } else if words(normalized).len() == 0 {
        Err(SearchQueryError::OnlyWhitespace)
    } else {
        Ok(and_join(words(normalized)))
    }
}

/// The FTS5 match expression for what the user typed: the query is
/// trimmed and NFC-normalized first.
pub fn build_fts_query(query: &str) -> (r: Result<String, SearchQueryError>)
    ensures
        match (r, fts_query_of(nfc(trim(query@)))) {
            (Ok(s), Ok(t)) => s@ == t,
            (Err(e), Err(f)) => e == f,
            _ => false,
        },
{
    let cs = chars_of(query);
    let t = trim_chars(cs.as_slice());
    let trimmed = crate::format::string_from_chars(t.as_slice());
    let q_norm = normalize(trimmed.as_str());
    let qs = chars_of(q_norm.as_str());
    if qs.len() == 0 {
        return Err(SearchQueryError::Empty);
    }
    let ws = split_words(qs.as_slice());
    if ws.len() == 0 {
        return Err(SearchQueryError::OnlyWhitespace);
    }
    let mut out = String::new();
    let mut i: usize = 0;
    while i < ws.len()
        invariant
            1 <= ws@.len() == words(qs@).len(),
            i <= ws@.len(),
            forall|k: int| 0 <= k < ws@.len() ==> #[trigger] ws@[k]@ == words(qs@)[k],
            out@ == and_join(words(qs@).take(i as int)),
        decreases ws@.len() - i,
    {
        proof {
            let w = words(qs@);
            assert(w.take(i + 1).drop_last() =~= w.take(i as int));
            assert(w.take(i + 1).last() == w[i as int]);
        }
        if i > 0 {
            push_str(&mut out, " AND ");
        }
        let tok = escape_chars(ws[i].as_slice());
        push_str(&mut out, tok.as_str());
        proof {
            let w = words(qs@);
            if i == 0 {
                assert(w.take(1) =~= seq![w[0]]);
            }
            assert(out@ =~= and_join(w.take(i + 1)));
        }
        i = i + 1;
    }
    proof {
        assert(words(qs@).take(ws@.len() as int) =~= words(qs@));
    }
    Ok(out)
}


/// `m:ss`-style label of a time offset: minutes and seconds, each at least
/// two digits, computed with Rust's truncating division.
pub open spec fn mmss_label(ms: int) -> Seq<char> {
    let total = tdiv(ms, 1000);
    signed_zero_pad(tdiv(total, 60), 2) + seq![':'] + signed_zero_pad(trem(total, 60), 2)
}

/// SRT timestamp `HH:MM:SS,mmm` of a time offset.
pub open spec fn srt_timestamp(ms: int) -> Seq<char> {
    let total = tdiv(ms, 1000);
    signed_zero_pad(tdiv(total, 3600), 2) + seq![':'] + signed_zero_pad(tdiv(trem(total, 3600), 60), 2)
        + seq![':'] + signed_zero_pad(trem(total, 60), 2) + seq![','] + signed_zero_pad(trem(ms, 1000), 3)
}

/// Formats a time offset as `MM:SS`.
pub fn format_ms_as_mmss(ms: i64) -> (r: String)
    ensures
        r@ == mmss_label(ms as int),
{
    let (total, _) = div_rem_i64(ms, 1000);
    let (m, s) = div_rem_i64(total, 60);
    let mut r = String::new();
    push_signed_padded(&mut r, m, 2);
    push_char(&mut r, ':');
    push_signed_padded(&mut r, s, 2);
    proof {
        assert(r@ =~= mmss_label(ms as int));
    }
    r
}

/// Formats a time offset as an SRT timestamp `HH:MM:SS,mmm`.
pub fn format_srt_timestamp(ms: i64) -> (r: String)
    ensures
        r@ == srt_timestamp(ms as int),
{
    let (total, ms_part) = div_rem_i64(ms, 1000);
    let (h, rem_h) = div_rem_i64(total, 3600);
    let (m, _) = div_rem_i64(rem_h, 60);
    let (_, s) = div_rem_i64(total, 60);
    let mut r = String::new();
    push_signed_padded(&mut r, h, 2);
    push_char(&mut r, ':');
    push_signed_padded(&mut r, m, 2);
    push_char(&mut r, ':');
    push_signed_padded(&mut r, s, 2);
    push_char(&mut r, ',');
    push_signed_padded(&mut r, ms_part, 3);
    proof {
        assert(r@ =~= srt_timestamp(ms as int));
    }
    r
}

/// The segments' texts joined by newlines.
pub open spec fn plain_text_of(segs: Seq<Segment>) -> Seq<char>
    decreases segs.len(),
{
    if segs.len() == 0 {
        Seq::<char>::empty()
    } else if segs.len() == 1 {
        segs[0].text@
    } else {
        plain_text_of(segs.drop_last()) + seq!['\n'] + segs.last().text@
    }
}

/// Plain-text export: the segments' texts, one per line.
pub fn export_text(segments: &[Segment]) -> (r: String)
    ensures
        r@ == plain_text_of(segments@),
{
    let mut r = String::new();
    let mut i: usize = 0;
    while i < segments.len()
        invariant
            i <= segments@.len(),
            r@ == plain_text_of(segments@.take(i as int)),
        decreases segments@.len() - i,
    {
        proof {
            assert(segments@.take(i + 1).drop_last() =~= segments@.take(i as int));
        }
        if i > 0 {
            push_char(&mut r, '\n');
        }
        push_str(&mut r, segments[i].text.as_str());
        proof {
            assert(r@ =~= plain_text_of(segments@.take(i + 1)));
        }
        i = i + 1;
    }
    proof {
        assert(segments@.take(segments@.len() as int) =~= segments@);
    }
    r
}

/// One SRT cue: its number, its time range, its text, a blank line.
pub open spec fn srt_cue(n: nat, seg: Segment) -> Seq<char> {
    decimal(n) + seq!['\n'] + srt_timestamp(seg.start_ms as int) + " --> "@ + srt_timestamp(
        seg.end_ms as int,
    ) + seq!['\n'] + seg.text@ + seq!['\n', '\n']
}

/// The cues of the first segments, numbered from 1.
pub open spec fn srt_of(segs: Seq<Segment>) -> Seq<char>
    decreases segs.len(),
{
    if segs.len() == 0 {
        Seq::<char>::empty()
    } else {
        srt_of(segs.drop_last()) + srt_cue(segs.len(), segs.last())
    }
}

fn push_srt_cue(r: &mut String, n: u64, seg: &Segment)
    ensures
        final(r)@ == old(r)@ + srt_cue(n as nat, *seg),
{
    push_u64(r, n);
    push_char(r, '\n');
    let a = format_srt_timestamp(seg.start_ms);
    push_str(r, a.as_str());
    push_str(r, " --> ");
    let b = format_srt_timestamp(seg.end_ms);
    push_str(r, b.as_str());
    push_char(r, '\n');
    push_str(r, seg.text.as_str());
    push_char(r, '\n');
    push_char(r, '\n');
    proof {
        assert(final(r)@ =~= old(r)@ + srt_cue(n as nat, *seg));
    }
}

/// SRT export: numbered cues with `HH:MM:SS,mmm` time ranges.
pub fn export_srt(segments: &[Segment]) -> (r: String)
    ensures
        r@ == srt_of(segments@),
{
    let mut r = String::new();
    let mut i: usize = 0;
    while i < segments.len()
        invariant
            i <= segments@.len(),
            r@ == srt_of(segments@.take(i as int)),
        decreases segments@.len() - i,
    {
        proof {
            assert(segments@.take(i + 1).drop_last() =~= segments@.take(i as int));
            assert(segments@.take(i + 1).last() == segments@[i as int]);
        }
        push_srt_cue(&mut r, (i + 1) as u64, &segments[i]);
        i = i + 1;
    }
    proof {
        assert(segments@.take(segments@.len() as int) =~= segments@);
    }
    r
}

/// The segment lines of the Markdown export.
pub open spec fn markdown_segments(segs: Seq<Segment>) -> Seq<char>
    decreases segs.len(),
{
    if segs.len() == 0 {
        Seq::<char>::empty()
    } else {
        markdown_segments(segs.drop_last()) + "**["@ + mmss_label(segs.last().start_ms as int)
            + "]** "@ + segs.last().text@ + seq!['\n', '\n']
    }
}

/// The metadata header of the Markdown export.
pub open spec fn markdown_header(s: Session) -> Seq<char> {
    "# Transcript\n\n"@ + "**Session ID**: "@ + int_decimal(s.id as int) + seq!['\n', '\n']
        + "**Started at (epoch ms)**: "@ + int_decimal(s.started_at_ms as int) + seq!['\n', '\n']
        + match s.duration_ms {
        Some(d) => "**Duration**: "@ + int_decimal(tdiv(d as int, 1000)) + seq!['s', '\n', '\n'],
        None => Seq::<char>::empty(),
    } + "**Audio source**: "@ + s.audio_source@ + seq!['\n', '\n'] + "**Provider**: "@
        + s.provider@ + seq!['\n', '\n'] + match s.detected_language {
        Some(l) => "**Language**: "@ + l@ + seq!['\n', '\n'],
        None => Seq::<char>::empty(),
    } + "---\n\n"@
}

/// Markdown export: a metadata header, then each segment with its `MM:SS`
/// offset.
#[verifier::spinoff_prover]
#[verifier::rlimit(40)]
pub fn export_markdown(session: &Session, segments: &[Segment]) -> (r: String)
    ensures
        r@ == markdown_header(*session) + markdown_segments(segments@),
{
    let mut r = String::new();
    push_str(&mut r, "# Transcript\n\n");
    push_str(&mut r, "**Session ID**: ");
    push_i64(&mut r, session.id);
    push_char(&mut r, '\n');
    push_char(&mut r, '\n');
    push_str(&mut r, "**Started at (epoch ms)**: ");
    push_i64(&mut r, session.started_at_ms);
    push_char(&mut r, '\n');
    push_char(&mut r, '\n');
    let ghost before_dur = r@;
    match session.duration_ms {
        Some(d) => {
            push_str(&mut r, "**Duration**: ");
            let (secs, _) = div_rem_i64(d, 1000);
            push_i64(&mut r, secs);
            push_char(&mut r, 's');
            push_char(&mut r, '\n');
            push_char(&mut r, '\n');
        },
        None => {},
    }
    push_str(&mut r, "**Audio source**: ");
    push_str(&mut r, session.audio_source.as_str());
    push_char(&mut r, '\n');
    push_char(&mut r, '\n');
    push_str(&mut r, "**Provider**: ");
    push_str(&mut r, session.provider.as_str());
    push_char(&mut r, '\n');
    push_char(&mut r, '\n');
    match &session.detected_language {
        Some(l) => {
            push_str(&mut r, "**Language**: ");
            push_str(&mut r, l.as_str());
            push_char(&mut r, '\n');
            push_char(&mut r, '\n');
        },
        None => {},
    }
    push_str(&mut r, "---\n\n");
    proof {
        assert(r@ =~= markdown_header(*session));
    }
    let ghost header = r@;
    let mut i: usize = 0;
    while i < segments.len()
        invariant
            i <= segments@.len(),
            header == markdown_header(*session),
            r@ == header + markdown_segments(segments@.take(i as int)),
        decreases segments@.len() - i,
    {
        proof {
            assert(segments@.take(i + 1).drop_last() =~= segments@.take(i as int));
            assert(segments@.take(i + 1).last() == segments@[i as int]);
        }
        let seg = &segments[i];
        push_str(&mut r, "**[");
        let t = format_ms_as_mmss(seg.start_ms);
        push_str(&mut r, t.as_str());
        push_str(&mut r, "]** ");
        push_str(&mut r, seg.text.as_str());
        push_char(&mut r, '\n');
        push_char(&mut r, '\n');
        proof {
            assert(r@ =~= header + markdown_segments(segments@.take(i + 1)));
        }
        i = i + 1;
    }
    proof {
        assert(segments@.take(segments@.len() as int) =~= segments@);
    }
    r
}

/// Numbered SQL parameters `?1, ?2, ..., ?n`.
pub open spec fn placeholders(n: nat) -> Seq<char>
    decreases n,
{
    if n == 0 {
        Seq::<char>::empty()
    } else if n == 1 {
        seq!['?'] + decimal(1)
    } else {
        placeholders((n - 1) as nat) + seq![',', ' ', '?'] + decimal(n)
    }
}

/// The parameter list of a query over `n` session ids.
pub fn sql_placeholders(n: usize) -> (s: String)
    ensures
        s@ == placeholders(n as nat),
{
    let mut s = String::new();
    let mut i: usize = 0;
    while i < n
        invariant
            i <= n,
            s@ == placeholders(i as nat),
        decreases n - i,
    {
        if i > 0 {
            push_char(&mut s, ',');
            push_char(&mut s, ' ');
        }
        push_char(&mut s, '?');
        push_u64(&mut s, (i + 1) as u64);
        proof {
            assert(s@ =~= placeholders((i + 1) as nat));
        }
        i = i + 1;
    }
    s
}

// ---------------------------------------------------------------- laws

/// The match expression requires every word: joining two non-empty runs
/// of words gives the first run's expression, ` AND `, then the second's;
/// a single word is its quoted token. So every separator between tokens is
/// ` AND `, wherever the words stand.
pub proof fn lemma_and_join_requires_every_word(a: Seq<Seq<char>>, b: Seq<Seq<char>>, w: Seq<char>)
    requires
        a.len() > 0,
        b.len() > 0,
    ensures
        and_join(a + b) == and_join(a) + " AND "@ + and_join(b),
        and_join(seq![w]) == fts_token(w),
    decreases b.len(),
{
    if b.len() == 1 {
        assert((a + b).drop_last() =~= a);
        assert((a + b).last() == b[0]);
    } else {
        let b2 = b.drop_last();
        lemma_and_join_requires_every_word(a, b2, w);
        assert((a + b).drop_last() =~= a + b2);
        assert((a + b).last() == b.last());
        assert(and_join(a + b) =~= and_join(a) + " AND "@ + and_join(b));
    }
}

/// An offset's `MM:SS` label counts whole minutes without wrapping: for a
/// non-negative offset it reads `M:S`, both zero-padded to two digits, with
/// `S < 60` and `60 * M + S` the offset's whole seconds.
pub proof fn lemma_mmss_counts_total_minutes(ms: int)
    requires
        ms >= 0,
    ensures
        exists|m: nat, sec: nat|
            {
                &&& sec < 60
                &&& 60 * m + sec == ms / 1000
                &&& #[trigger] mmss_label(ms) == zero_pad(decimal(m), 2) + seq![':'] + zero_pad(decimal(sec), 2)
            },
{
    let total = ms / 1000;
    let m: nat = (total / 60) as nat;
    let sec: nat = (total % 60) as nat;
    assert(tdiv(ms, 1000) == total);
    assert(tdiv(total, 60) == m);
    assert(trem(total, 60) == sec) by {
        assert(total == 60 * (total / 60) + total % 60);
    }
    assert(mmss_label(ms) == zero_pad(decimal(m), 2) + seq![':'] + zero_pad(decimal(sec), 2));
}

} // verus!
