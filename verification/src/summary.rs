//! Summaries of recorded sessions: when a session is long enough for one,
//! the states a summary passes through, the limit on manual reruns, and
//! the failure messages.
use crate::format::{decimal, push_char, push_str, push_u64};
use crate::text::chars_of;
use std::collections::HashMap;
use vstd::prelude::*;

verus! {

broadcast use vstd::std_specs::hash::group_hash_axioms;

/// Fewest segments a session needs for a summary.
pub const MIN_SEGMENTS: usize = 10;

/// Fewest characters (of the joined text) a session needs for a summary.
pub const MIN_CHARS: usize = 200;

/// Most manual reruns per session.
pub const REGEN_CAP: u8 = 3;

/// Why a summary was skipped.
#[derive(Debug, Clone, Copy, PartialEq, Eq, Structural)]
pub enum SkipReason {
    TooShort,
}

/// Why writing a summary failed.
#[derive(Debug, PartialEq, Eq)]
pub enum FailureKind {
    Network,
    InvalidKey,
    RateLimited,
    ServerError(u16),
    Other(String),
}

impl FailureKind {
    /// The Vietnamese message shown for the failure.
    pub fn vi_message(&self) -> (m: String)
        ensures
            m@ == match *self {
                FailureKind::Network => "Lỗi mạng — nhấn Tạo lại để thử lại"@,
                FailureKind::InvalidKey => "API key không hợp lệ — kiểm tra Settings → System"@,
                FailureKind::RateLimited => "Hết hạn mức OpenAI — nhấn Tạo lại sau"@,
                FailureKind::ServerError(c) => "Lỗi server OpenAI ("@ + decimal(c as nat) + ") — nhấn Tạo lại sau"@,
                FailureKind::Other(s) => "Lỗi tóm tắt: "@ + s@,
            },
    {
        let mut m = String::new();
        match self {
            FailureKind::Network => push_str(&mut m, "Lỗi mạng — nhấn Tạo lại để thử lại"),
            FailureKind::InvalidKey => push_str(&mut m, "API key không hợp lệ — kiểm tra Settings → System"),
            FailureKind::RateLimited => push_str(&mut m, "Hết hạn mức OpenAI — nhấn Tạo lại sau"),
            FailureKind::ServerError(c) => {
                push_str(&mut m, "Lỗi server OpenAI (");
                push_u64(&mut m, *c as u64);
                push_str(&mut m, ") — nhấn Tạo lại sau");
            },
            FailureKind::Other(s) => {
                push_str(&mut m, "Lỗi tóm tắt: ");
                push_str(&mut m, s.as_str());
            },
        }
        m
    }
}

/// Where a session's summary stands.
#[derive(Debug, PartialEq, Eq)]
pub enum SummaryState {
    Pending,
    Done(String),
    Skipped(SkipReason),
    Failed(FailureKind),
    NeedsApiKey,
}

/// How writing a summary can fail.
#[derive(Debug, PartialEq, Eq)]
pub enum SummaryError {
    InvalidKey,
    RateLimited,
    ServerError(u16),
    Timeout,
    NeedsApiKey,
    Provider { code: String, message: String },
}

/// The state a failed attempt leaves: a missing key asks for one, a
/// timeout counts as a network failure, a provider error keeps its code
/// and message.
pub open spec fn state_for_error_rel(e: SummaryError, s: SummaryState) -> bool {
    match (e, s) {
            (SummaryError::InvalidKey, SummaryState::Failed(FailureKind::InvalidKey)) => true,
            (SummaryError::RateLimited, SummaryState::Failed(FailureKind::RateLimited)) => true,
            (SummaryError::ServerError(c), SummaryState::Failed(FailureKind::ServerError(d))) => c == d,
            (SummaryError::Timeout, SummaryState::Failed(FailureKind::Network)) => true,
            (SummaryError::NeedsApiKey, SummaryState::NeedsApiKey) => true,
            (SummaryError::Provider { code, message }, SummaryState::Failed(FailureKind::Other(t))) =>
                t@ == "provider "@ + code@ + ": "@ + message@,
            _ => false,
    }
}

/// The state a failed attempt leaves (see `state_for_error_rel`).
pub fn state_for_error(e: &SummaryError) -> (s: SummaryState)
    ensures
        state_for_error_rel(*e, s),
{
    match e {
        SummaryError::InvalidKey => SummaryState::Failed(FailureKind::InvalidKey),
        SummaryError::RateLimited => SummaryState::Failed(FailureKind::RateLimited),
        SummaryError::ServerError(c) => SummaryState::Failed(FailureKind::ServerError(*c)),
        SummaryError::Timeout => SummaryState::Failed(FailureKind::Network),
        SummaryError::NeedsApiKey => SummaryState::NeedsApiKey,
        SummaryError::Provider { code, message } => {
            let mut t = String::new();
            push_str(&mut t, "provider ");
            push_str(&mut t, code.as_str());
            push_str(&mut t, ": ");
            push_str(&mut t, message.as_str());
            SummaryState::Failed(FailureKind::Other(t))
        },
    }
}

/// The segments' texts joined by single spaces.
pub open spec fn joined_with_spaces(texts: Seq<Seq<char>>) -> Seq<char>
    decreases texts.len(),
{
    if texts.len() == 0 {
        Seq::<char>::empty()
    } else if texts.len() == 1 {
        texts[0]
    } else {
        joined_with_spaces(texts.drop_last()) + seq![' '] + texts.last()
    }
}

/// The text sent for summarizing, or the reason to skip: fewer than ten
/// segments, or fewer than 200 characters once joined.
pub open spec fn summary_input_of(texts: Seq<Seq<char>>) -> Result<Seq<char>, SkipReason> {
    let joined = joined_with_spaces(texts);
    if texts.len() < MIN_SEGMENTS || joined.len() < MIN_CHARS {
        Err(SkipReason::TooShort)
    } else {
        Ok(joined)
    }
}

/// Joins the segment texts for summarizing, or says why the session is
/// too short.
pub fn summary_input(texts: &[String]) -> (r: Result<String, SkipReason>)
    ensures
        match (r, summary_input_of(texts@.map_values(|t: String| t@))) {
            (Ok(s), Ok(t)) => s@ == t,
            (Err(a), Err(b)) => a == b,
            _ => false,
        },
{
    let ghost views = texts@.map_values(|t: String| t@);
    let mut joined = String::new();
    let mut i: usize = 0;
    while i < texts.len()
        invariant
            i <= texts@.len(),
            views == texts@.map_values(|t: String| t@),
            joined@ == joined_with_spaces(views.take(i as int)),
        decreases texts@.len() - i,
    {
        proof {
            assert(views.take(i + 1).drop_last() =~= views.take(i as int));
            assert(views.take(i + 1).last() == texts@[i as int]@);
        }
        if i > 0 {
            push_char(&mut joined, ' ');
        }
        push_str(&mut joined, texts[i].as_str());
        proof {
            if i == 0 {
                assert(views.take(1) =~= seq![views[0]]);
            }
            assert(joined@ =~= joined_with_spaces(views.take(i + 1)));
        }
        i = i + 1;
    }
    proof {
        assert(views.take(views.len() as int) =~= views);
    }
    let n = chars_of(joined.as_str());
    if texts.len() < MIN_SEGMENTS || n.len() < MIN_CHARS {
        Err(SkipReason::TooShort)
    } else {
        Ok(joined)
    }
}

/// The count recorded for `id`, 0 when none is.
pub open spec fn count_of(counts: Map<i64, u8>, id: i64) -> u8 {
    if counts.contains_key(id) {
        counts[id]
    } else {
        0
    }
}

/// The tag of a summary state.
#[derive(Debug, Clone, Copy, PartialEq, Eq, Structural)]
pub enum SummaryPhase {
    Pending,
    Done,
    Skipped,
    Failed,
    NeedsApiKey,
}

pub open spec fn phase_of(s: SummaryState) -> SummaryPhase {
    match s {
        SummaryState::Pending => SummaryPhase::Pending,
        SummaryState::Done(_) => SummaryPhase::Done,
        SummaryState::Skipped(_) => SummaryPhase::Skipped,
        SummaryState::Failed(_) => SummaryPhase::Failed,
        SummaryState::NeedsApiKey => SummaryPhase::NeedsApiKey,
    }
}

/// The phase recorded for `id`, if any.
pub open spec fn phase_for(phases: Map<i64, SummaryPhase>, id: i64) -> Option<SummaryPhase> {
    if phases.contains_key(id) {
        Some(phases[id])
    } else {
        None
    }
}

/// Per-session summary states and rerun counts, one entry per session.
pub struct SummaryRunner {
    states: HashMap<i64, SummaryState>,
    regen_counts: HashMap<i64, u8>,
}

impl SummaryRunner {
    pub closed spec fn spec_counts(&self) -> Map<i64, u8> {
        self.regen_counts@
    }

    /// The state recorded for each session.
    pub closed spec fn spec_states(&self) -> Map<i64, SummaryState> {
        self.states@
    }

    pub closed spec fn spec_phases(&self) -> Map<i64, SummaryPhase> {
        self.states@.map_values(|s: SummaryState| phase_of(s))
    }

    /// No count exceeds the cap.
    pub open spec fn wf(&self) -> bool {
        forall|id: i64| #[trigger] self.spec_counts().contains_key(id) ==> self.spec_counts()[id] <= REGEN_CAP
    }

    /// A runner with nothing recorded.
    pub fn new() -> (r: Self)
        ensures
            r.wf(),
            forall|id: i64| count_of(r.spec_counts(), id) == 0 && phase_for(r.spec_phases(), id).is_none(),
    {
        let r = SummaryRunner { states: HashMap::new(), regen_counts: HashMap::new() };
        proof {
            assert(r.spec_phases() =~= Map::<i64, SummaryPhase>::empty());
        }
        r
    }

    /// Manual reruns made for a session.
    pub fn regen_count(&self, session_id: i64) -> (n: u8)
        ensures
            n == count_of(self.spec_counts(), session_id),
    {
        match self.regen_counts.get(&session_id) {
            Some(n) => *n,
            None => 0,
        }
    }

    /// Records a new state for a session, replacing the one it had.
    pub fn set_state(&mut self, session_id: i64, state: SummaryState)
        ensures
            final(self).spec_counts() == old(self).spec_counts(),
            final(self).spec_states() == old(self).spec_states().insert(session_id, state),
            forall|id: i64| #[trigger] phase_for(final(self).spec_phases(), id) == if id == session_id {
                Some(phase_of(state))
            } else {
                phase_for(old(self).spec_phases(), id)
            },
    {
        let ghost ph = phase_of(state);
        let _ = self.states.insert(session_id, state);
        proof {
            assert(self.spec_phases() =~= old(self).spec_phases().insert(session_id, ph));
        }
    }

    /// Starts a run: a manual rerun is refused once the session has
    /// had three, and otherwise counted; an accepted run marks the session
    /// pending. Returns whether the run goes ahead.
    pub fn begin_run(&mut self, session_id: i64, regen: bool) -> (go: bool)
        requires
            old(self).wf(),
        ensures
            final(self).wf(),
            go == (!regen || count_of(old(self).spec_counts(), session_id) < REGEN_CAP),
            forall|id: i64| #[trigger] count_of(final(self).spec_counts(), id) == if go && regen && id == session_id {
                (count_of(old(self).spec_counts(), id) + 1) as u8
            } else {
                count_of(old(self).spec_counts(), id)
            },
            forall|id: i64| #[trigger] phase_for(final(self).spec_phases(), id) == if go && id == session_id {
                Some(SummaryPhase::Pending)
            } else {
                phase_for(old(self).spec_phases(), id)
            },
    {
        if regen {
            let n = self.regen_count(session_id);
            if n >= REGEN_CAP {
                return false;
            }
            let _ = self.regen_counts.insert(session_id, n + 1);
        }
        self.set_state(session_id, SummaryState::Pending);
        true
    }

    /// After looking for the OpenAI key: without one the session waits for
    /// a key and the run stops. Returns whether the run goes on.
    pub fn after_key_check(&mut self, session_id: i64, key_present: bool) -> (go: bool)
        ensures
            go == key_present,
            final(self).spec_counts() == old(self).spec_counts(),
            final(self).spec_states() == if key_present {
                old(self).spec_states()
            } else {
                old(self).spec_states().insert(session_id, SummaryState::NeedsApiKey)
            },
    {
        if !key_present {
            self.set_state(session_id, SummaryState::NeedsApiKey);
        }
        key_present
    }

    /// After loading the session's transcript: a failed load fails the run
    /// (`db: ` and the error); a session too short to summarize is skipped;
    /// otherwise the text to summarize is returned and the session stays as
    /// it was.
    pub fn after_fetch(&mut self, session_id: i64, fetched: Result<Vec<String>, String>) -> (text: Option<String>)
        ensures
            final(self).spec_counts() == old(self).spec_counts(),
            forall|id: i64| id != session_id ==> #[trigger] final(self).spec_states().get(id) == old(self).spec_states().get(id),
            match fetched {
                Err(e) => text is None && match final(self).spec_states().get(session_id) {
                    Some(SummaryState::Failed(FailureKind::Other(t))) => t@ == "db: "@ + e@,
                    _ => false,
                },
                Ok(ts) => match summary_input_of(ts@.map_values(|t: String| t@)) {
                    Err(reason) => text is None && final(self).spec_states() == old(self).spec_states().insert(
                        session_id,
                        SummaryState::Skipped(reason),
                    ),
                    Ok(joined) => text matches Some(t) && t@ == joined && final(self).spec_states()
                        == old(self).spec_states(),
                },
            },
    {
        match fetched {
            Err(e) => {
                let mut t = String::new();
                push_str(&mut t, "db: ");
                push_str(&mut t, e.as_str());
                self.set_state(session_id, SummaryState::Failed(FailureKind::Other(t)));
                None
            },
            Ok(ts) => match summary_input(ts.as_slice()) {
                Err(reason) => {
                    self.set_state(session_id, SummaryState::Skipped(reason));
                    None
                },
                Ok(joined) => Some(joined),
            },
        }
    }

    /// After the model answered: a summary marks the session done with its
    /// content and returns whether the stored summaries are replaced first
    /// (on a manual rerun) — `Some(regen)`, for the caller to store it; a
    /// failure records the state `state_for_error` gives and returns `None`.
    pub fn after_call(&mut self, session_id: i64, regen: bool, result: Result<String, SummaryError>) -> (store: Option<bool>)
        ensures
            final(self).spec_counts() == old(self).spec_counts(),
            forall|id: i64| id != session_id ==> #[trigger] final(self).spec_states().get(id) == old(self).spec_states().get(id),
            match result {
                Ok(content) => store == Some(regen) && match final(self).spec_states().get(session_id) {
                    Some(SummaryState::Done(c)) => c@ == content@,
                    _ => false,
                },
                Err(e) => store is None && match final(self).spec_states().get(session_id) {
                    Some(st) => state_for_error_rel(e, st),
                    None => false,
                },
            },
    {
        match result {
            Ok(content) => {
                self.set_state(session_id, SummaryState::Done(content));
                Some(regen)
            },
            Err(e) => {
                let st = state_for_error(&e);
                self.set_state(session_id, st);
                None
            },
        }
    }

    /// The phase recorded for a session, if any.
    pub fn phase(&self, session_id: i64) -> (p: Option<SummaryPhase>)
        ensures
            p == phase_for(self.spec_phases(), session_id),
    {
        match self.states.get(&session_id) {
            Some(SummaryState::Pending) => Some(SummaryPhase::Pending),
            Some(SummaryState::Done(_)) => Some(SummaryPhase::Done),
            Some(SummaryState::Skipped(_)) => Some(SummaryPhase::Skipped),
            Some(SummaryState::Failed(_)) => Some(SummaryPhase::Failed),
            Some(SummaryState::NeedsApiKey) => Some(SummaryPhase::NeedsApiKey),
            None => None,
        }
    }
}

/// However often a rerun is asked for, a session's count never
/// passes the cap: `begin_run` keeps every count at most three.
pub proof fn lemma_regen_count_never_exceeds_cap(r: SummaryRunner, id: i64)
    requires
        r.wf(),
    ensures
        count_of(r.spec_counts(), id) <= REGEN_CAP,
{
}

/// The summary state shown in the session detail view: the runner's state
/// when it is pending, waiting for a key, or failed; otherwise whether the
/// database holds a summary.
pub fn determine_summary_state(session_id: i64, runner: &SummaryRunner, has_stored_summary: bool) -> (s: &'static str)
    ensures
        s@ == match phase_for(runner.spec_phases(), session_id) {
            Some(SummaryPhase::Pending) => "computing"@,
            Some(SummaryPhase::NeedsApiKey) => "needs-api-key"@,
            Some(SummaryPhase::Failed) => "error"@,
            _ => if has_stored_summary { "done"@ } else { "idle"@ },
        },
{
    match runner.phase(session_id) {
        Some(SummaryPhase::Pending) => "computing",
        Some(SummaryPhase::NeedsApiKey) => "needs-api-key",
        Some(SummaryPhase::Failed) => "error",
        _ => {
            if has_stored_summary {
                "done"
            } else {
                "idle"
            }
        },
    }
}

/// Toast text when a session's summary failed.
pub const SUMMARY_FAILED_TOAST: &'static str = "Tóm tắt thất bại — kiểm tra API key OpenAI";

/// The failure toast for the session shown, raised once per session: when
/// the session (a nonzero id) has a failed summary and the toast was not
/// yet raised for it, records the session in `last_toasted` and returns
/// the text; otherwise returns `None` and leaves `last_toasted` alone.
pub fn summary_failure_toast(session_id: i64, runner: &SummaryRunner, last_toasted: &mut u64) -> (t: Option<&'static str>)
    ensures
        ({
            let due = session_id != 0 && phase_for(runner.spec_phases(), session_id) == Some(SummaryPhase::Failed)
                && *old(last_toasted) != session_id as u64;
            &&& due ==> t == Some(SUMMARY_FAILED_TOAST) && *final(last_toasted) == session_id as u64
            &&& !due ==> t.is_none() && *final(last_toasted) == *old(last_toasted)
        }),
{
    if session_id == 0 {
        return None;
    }
    match runner.phase(session_id) {
        Some(SummaryPhase::Failed) => {
            #[verifier::truncate]
            let key: u64 = session_id as u64;
            if *last_toasted != key {
                *last_toasted = key;
                Some(SUMMARY_FAILED_TOAST)
            } else {
                None
            }
        },
        _ => None,
    }
}

} // verus!
