//! First-run wizard: its steps, the navigation between them, and the
//! marker file that records progress.
//!
//! The marker file reads, one entry per line:
//!
//! ```text
//! v=2
//! step.welcome.done=<unix seconds>
//! step.api_key.skipped=<unix seconds>
//! step.complete=<unix seconds>
//! ```
//!
//! A file without the `v=2` line belongs to an early install and counts as
//! complete.
use crate::text::{
    has_prefix, trim, lemma_split_lines_append, lemma_split_lines_no_newline,
    lemma_split_lines_nonempty, lemma_trim_of_unpadded, any_line_is, any_line_starts_with, chars_equal, chars_of, lines_of, some_line_is,
    some_line_starts_with, split_lines,
};
use crate::clock::unix_now_secs;
use crate::format::{lemma_decimal_digits, decimal, push_str, u64_to_decimal};
use vstd::prelude::*;

verus! {

/// Schema header line of the marker file.
pub const SCHEMA_VERSION: &'static str = "v=2";

/// The wizard's steps in display order.
#[derive(Debug, Clone, Copy, PartialEq, Eq, Structural)]
pub enum WizardStep {
    Welcome,
    Audio,
    Provider,
    /// Shown for the cloud providers only.
    ApiKey,
    /// Shown for the local Whisper provider only.
    Model,
    Language,
    CrashReport,
    Done,
}

pub open spec fn step_index(s: WizardStep) -> nat {
    match s {
        WizardStep::Welcome => 0,
        WizardStep::Audio => 1,
        WizardStep::Provider => 2,
        WizardStep::ApiKey => 3,
        WizardStep::Model => 4,
        WizardStep::Language => 5,
        WizardStep::CrashReport => 6,
        WizardStep::Done => 7,
    }
}

pub open spec fn step_key(s: WizardStep) -> Seq<char> {
    match s {
        WizardStep::Welcome => "welcome"@,
        WizardStep::Audio => "audio"@,
        WizardStep::Provider => "provider"@,
        WizardStep::ApiKey => "api_key"@,
        WizardStep::Model => "model"@,
        WizardStep::Language => "language"@,
        WizardStep::CrashReport => "crash_report"@,
        WizardStep::Done => "done"@,
    }
}

pub open spec fn step_at(i: nat) -> Option<WizardStep> {
    if i == 0 {
        Some(WizardStep::Welcome)
    } else if i == 1 {
        Some(WizardStep::Audio)
    } else if i == 2 {
        Some(WizardStep::Provider)
    } else if i == 3 {
        Some(WizardStep::ApiKey)
    } else if i == 4 {
        Some(WizardStep::Model)
    } else if i == 5 {
        Some(WizardStep::Language)
    } else if i == 6 {
        Some(WizardStep::CrashReport)
    } else if i == 7 {
        Some(WizardStep::Done)
    } else {
        None
    }
}

impl WizardStep {
    /// Key of the step in the marker file.
    pub fn key(self) -> (k: &'static str)
        ensures
            k@ == step_key(self),
    {
        match self {
            WizardStep::Welcome => "welcome",
            WizardStep::Audio => "audio",
            WizardStep::Provider => "provider",
            WizardStep::ApiKey => "api_key",
            WizardStep::Model => "model",
            WizardStep::Language => "language",
            WizardStep::CrashReport => "crash_report",
            WizardStep::Done => "done",
        }
    }

    /// Display index of the step, from 0.
    pub fn index(self) -> (i: usize)
        ensures
            i == step_index(self),
    {
        match self {
            WizardStep::Welcome => 0,
            WizardStep::Audio => 1,
            WizardStep::Provider => 2,
            WizardStep::ApiKey => 3,
            WizardStep::Model => 4,
            WizardStep::Language => 5,
            WizardStep::CrashReport => 6,
            WizardStep::Done => 7,
        }
    }

    /// The step shown at display index `i`, if any.
    pub fn from_index(i: usize) -> (s: Option<Self>)
        ensures
            s == step_at(i as nat),
    {
        match i {
            0 => Some(WizardStep::Welcome),
            1 => Some(WizardStep::Audio),
            2 => Some(WizardStep::Provider),
            3 => Some(WizardStep::ApiKey),
            4 => Some(WizardStep::Model),
            5 => Some(WizardStep::Language),
            6 => Some(WizardStep::CrashReport),
            7 => Some(WizardStep::Done),
            _ => None,
        }
    }
}

/// Index and step agree in both directions: every step comes back from its
/// index, and every index up to 7 names the step that has it.
pub proof fn lemma_step_index_roundtrip(s: WizardStep, i: nat)
    ensures
        step_at(step_index(s)) == Some(s),
        step_at(i).is_some() <==> i <= 7,
        step_at(i).is_some() ==> step_index(step_at(i).unwrap()) == i,
{
}

/// Progress recorded in the marker file.
#[derive(Debug, Clone, Copy, PartialEq, Eq, Structural)]
pub enum WizardProgress {
    /// No marker file, or a `v=2` file with no step done.
    NotStarted,
    /// A `v=2` file whose last completed step has this index in
    /// `step_prefix`; the wizard resumes after it.
    Resume(usize),
    /// The wizard was completed, or the file predates the `v=2` schema.
    Complete,
}

/// The view the application opens on, and the wizard step shown there:
/// the main view once the wizard is complete, else the wizard, at the
/// first step or right after the last completed one (at most `Done`).
pub open spec fn start_view(p: WizardProgress) -> (Seq<char>, int) {
    match p {
        WizardProgress::Complete => ("main"@, 0),
        WizardProgress::NotStarted => ("wizard"@, 0),
        WizardProgress::Resume(i) => ("wizard"@, if i >= 7 { 7 } else { i + 1 }),
    }
}

/// Chooses the first view from the recorded progress (see `start_view`).
pub fn initial_view(progress: WizardProgress) -> (r: (&'static str, i32))
    ensures
        r.0@ == start_view(progress).0,
        r.1 == start_view(progress).1,
{
    match progress {
        WizardProgress::Complete => ("main", 0),
        WizardProgress::NotStarted => ("wizard", 0),
        WizardProgress::Resume(i) => {
            let next: i32 = if i >= 7 { 7 } else { (i + 1) as i32 };
            ("wizard", next)
        },
    }
}

/// Marker-file prefix that records step `k` as done, in step order; the
/// API-key step counts as done when it was either done or skipped.
pub open spec fn step_prefix(k: nat) -> Seq<char> {
    if k == 0 {
        "step.welcome.done="@
    } else if k == 1 {
        "step.audio.done="@
    } else if k == 2 {
        "step.provider.done="@
    } else if k == 3 {
        "step.api_key."@
    } else if k == 4 {
        "step.model.done="@
    } else if k == 5 {
        "step.language.done="@
    } else {
        "step.crash_report.done="@
    }
}

/// Number of step prefixes the marker file is scanned for.
pub const STEP_PREFIX_COUNT: usize = 7;

fn step_prefix_str(k: usize) -> (p: &'static str)
    requires
        k < STEP_PREFIX_COUNT,
    ensures
        p@ == step_prefix(k as nat),
{
    match k {
        0 => "step.welcome.done=",
        1 => "step.audio.done=",
        2 => "step.provider.done=",
        3 => "step.api_key.",
        4 => "step.model.done=",
        5 => "step.language.done=",
        _ => "step.crash_report.done=",
    }
}

/// The greatest `k < n` whose prefix starts some line of `s`.
pub open spec fn last_completed(s: Seq<char>, n: nat) -> Option<usize>
    decreases n,
{
    if n == 0 {
        None
    } else if some_line_starts_with(s, step_prefix((n - 1) as nat)) {
        Some((n - 1) as usize)
    } else {
        last_completed(s, (n - 1) as nat)
    }
}

/// What the marker file's content says of the wizard.
pub open spec fn progress_of(s: Seq<char>) -> WizardProgress {
    if !some_line_is(s, SCHEMA_VERSION@) {
        WizardProgress::Complete
    } else if some_line_starts_with(s, "step.complete="@) {
        WizardProgress::Complete
    } else {
        match last_completed(s, STEP_PREFIX_COUNT as nat) {
            Some(k) => WizardProgress::Resume(k),
            None => WizardProgress::NotStarted,
        }
    }
}

proof fn lemma_lines_agree(lines: Seq<Vec<char>>, s: Seq<char>, x: Seq<char>)
    requires
        lines.len() == split_lines(s).len(),
        forall|i: int| 0 <= i < lines.len() ==> #[trigger] lines[i]@ == split_lines(s)[i],
    ensures
        (exists|i: int| 0 <= i < lines.len() && trim(#[trigger] lines[i]@) == x) == some_line_is(s, x),
        (exists|i: int| 0 <= i < lines.len() && has_prefix(trim(#[trigger] lines[i]@), x))
            == some_line_starts_with(s, x),
{
    if exists|i: int| 0 <= i < lines.len() && trim(#[trigger] lines[i]@) == x {
        let i = choose|i: int| 0 <= i < lines.len() && trim(#[trigger] lines[i]@) == x;
        assert(trim(split_lines(s)[i]) == x);
    }
    if some_line_is(s, x) {
        let i = choose|i: int| 0 <= i < split_lines(s).len() && trim(#[trigger] split_lines(s)[i]) == x;
        assert(trim(lines[i]@) == x);
    }
    if exists|i: int| 0 <= i < lines.len() && has_prefix(trim(#[trigger] lines[i]@), x) {
        let i = choose|i: int| 0 <= i < lines.len() && has_prefix(trim(#[trigger] lines[i]@), x);
        assert(has_prefix(trim(split_lines(s)[i]), x));
    }
    if some_line_starts_with(s, x) {
        let i = choose|i: int|
            0 <= i < split_lines(s).len() && has_prefix(trim(#[trigger] split_lines(s)[i]), x);
        assert(has_prefix(trim(lines[i]@), x));
    }
}

/// Reads the wizard's progress out of the marker file's content.
pub fn parse_progress(content: &str) -> (p: WizardProgress)
    ensures
        p == progress_of(content@),
{
    let cs = chars_of(content);
    let lines = lines_of(cs.as_slice());
    let header = chars_of(SCHEMA_VERSION);
    proof {
        lemma_lines_agree(lines@, content@, header@);
    }
    if !any_line_is(&lines, header.as_slice()) {
        return WizardProgress::Complete;
    }
    let complete = chars_of("step.complete=");
    proof {
        lemma_lines_agree(lines@, content@, complete@);
    }
    if any_line_starts_with(&lines, complete.as_slice()) {
        return WizardProgress::Complete;
    }
    let mut last: Option<usize> = None;
    let mut k: usize = 0;
    while k < STEP_PREFIX_COUNT
        invariant
            k <= STEP_PREFIX_COUNT,
            lines@.len() == split_lines(content@).len(),
            forall|i: int| 0 <= i < lines@.len() ==> #[trigger] lines@[i]@ == split_lines(content@)[i],
            last == last_completed(content@, k as nat),
        decreases STEP_PREFIX_COUNT - k,
    {
        let p = chars_of(step_prefix_str(k));
        proof {
            lemma_lines_agree(lines@, content@, p@);
        }
        if any_line_starts_with(&lines, p.as_slice()) {
            last = Some(k);
        }
        k = k + 1;
    }
    match last {
        Some(idx) => WizardProgress::Resume(idx),
        None => WizardProgress::NotStarted,
    }
}


/// The provider ids that take an API key (the cloud providers).
pub open spec fn is_cloud_provider(provider: Seq<char>) -> bool {
    provider == "soniox"@ || provider == "openai-realtime"@
}

/// True for `"soniox"` and `"openai-realtime"`.
pub fn provider_needs_api_key(provider: &str) -> (b: bool)
    ensures
        b == is_cloud_provider(provider@),
{
    let p = chars_of(provider);
    let soniox = chars_of("soniox");
    let openai = chars_of("openai-realtime");
    chars_equal(p.as_slice(), soniox.as_slice()) || chars_equal(p.as_slice(), openai.as_slice())
}

/// The step shown after "Next" on step `i`: the API-key step for cloud
/// providers, the model step for the local one, and `Done` stays `Done`.
pub open spec fn next_step(i: nat, cloud: bool) -> nat {
    if i == 0 {
        1
    } else if i == 1 {
        2
    } else if i == 2 {
        if cloud {
            3
        } else {
            4
        }
    } else if i == 3 || i == 4 {
        5
    } else if i == 5 {
        6
    } else {
        7
    }
}

/// The step shown after "Back" on step `i`.
pub open spec fn prev_step(i: nat, cloud: bool) -> nat {
    if i == 0 || i == 1 {
        0
    } else if i == 2 {
        1
    } else if i == 3 || i == 4 {
        2
    } else if i == 5 {
        if cloud {
            3
        } else {
            4
        }
    } else if i == 6 {
        5
    } else if i == 7 {
        6
    } else {
        0
    }
}

/// Display index shown after the user presses "Next" on `current_index`.
pub fn compute_next_step_index(current_index: usize, provider: &str) -> (n: usize)
    ensures
        n == next_step(current_index as nat, is_cloud_provider(provider@)),
{
    match current_index {
        0 => 1,
        1 => 2,
        2 => {
            if provider_needs_api_key(provider) {
                3
            } else {
                4
            }
        },
        3 => 5,
        4 => 5,
        5 => 6,
        6 => 7,
        _ => 7,
    }
}

/// Display index shown after the user presses "Back" on `current_index`.
pub fn compute_prev_step_index(current_index: usize, provider: &str) -> (n: usize)
    ensures
        n == prev_step(current_index as nat, is_cloud_provider(provider@)),
{
    match current_index {
        0 => 0,
        1 => 0,
        2 => 1,
        3 => 2,
        4 => 2,
        5 => {
            if provider_needs_api_key(provider) {
                3
            } else {
                4
            }
        },
        6 => 5,
        7 => 6,
        _ => 0,
    }
}

/// Step `i` belongs to the wizard's path for the provider kind: the
/// API-key step only for cloud providers, the model step only for the
/// local one.
pub open spec fn on_path(i: nat, cloud: bool) -> bool {
    &&& i <= 7
    &&& (i == 3 ==> cloud)
    &&& (i == 4 ==> !cloud)
}

/// "Next" moves forward until `Done`, where it stays, and never leaves the
/// provider's path.
pub proof fn lemma_next_advances_along_path(i: nat, cloud: bool)
    ensures
        i < 7 ==> next_step(i, cloud) > i,
        i >= 7 ==> next_step(i, cloud) == 7,
        on_path(i, cloud) ==> on_path(next_step(i, cloud), cloud),
        on_path(next_step(i, cloud), cloud),
{
}

/// "Back" undoes "Next" everywhere on the path before `Done`, and "Next"
/// undoes "Back" everywhere on the path after `Welcome`.
pub proof fn lemma_back_and_next_are_inverse(i: nat, cloud: bool)
    requires
        on_path(i, cloud),
    ensures
        i < 7 ==> prev_step(next_step(i, cloud), cloud) == i,
        i > 0 ==> next_step(prev_step(i, cloud), cloud) == i,
{
}

/// The marker line that records step `step` as done at `ts`.
pub open spec fn step_done_line(step: WizardStep, ts: Seq<char>) -> Seq<char> {
    "step."@ + step_key(step) + ".done="@ + ts + "\n"@
}

/// The marker line that records the API-key step as skipped at `ts`.
pub open spec fn api_key_skipped_line(ts: Seq<char>) -> Seq<char> {
    "step.api_key.skipped="@ + ts + "\n"@
}

/// The marker line that records the wizard as complete at `ts`.
pub open spec fn complete_line(ts: Seq<char>) -> Seq<char> {
    "step.complete="@ + ts + "\n"@
}

/// The line that records `step` as done at time `ts`.
pub fn format_step_done_line(step: WizardStep, ts: &str) -> (line: String)
    ensures
        line@ == step_done_line(step, ts@),
{
    let mut line = String::new();
    push_str(&mut line, "step.");
    push_str(&mut line, step.key());
    push_str(&mut line, ".done=");
    push_str(&mut line, ts);
    push_str(&mut line, "\n");
    proof {
        assert(line@ =~= step_done_line(step, ts@));
    }
    line
}

/// The line that records the API-key step as skipped at time `ts`.
pub fn format_api_key_skipped_line(ts: &str) -> (line: String)
    ensures
        line@ == api_key_skipped_line(ts@),
{
    let mut line = String::new();
    push_str(&mut line, "step.api_key.skipped=");
    push_str(&mut line, ts);
    push_str(&mut line, "\n");
    proof {
        assert(line@ =~= api_key_skipped_line(ts@));
    }
    line
}

/// The line that records the wizard as complete at time `ts`.
pub fn format_complete_line(ts: &str) -> (line: String)
    ensures
        line@ == complete_line(ts@),
{
    let mut line = String::new();
    push_str(&mut line, "step.complete=");
    push_str(&mut line, ts);
    push_str(&mut line, "\n");
    proof {
        assert(line@ =~= complete_line(ts@));
    }
    line
}

/// The header line written to a fresh marker file.
pub fn header_line() -> (line: String)
    ensures
        line@ == SCHEMA_VERSION@ + "\n"@,
{
    let mut line = String::new();
    push_str(&mut line, SCHEMA_VERSION);
    push_str(&mut line, "\n");
    line
}

/// The timestamp written in marker lines: whole seconds since the Unix
/// epoch, in decimal.
pub fn now_ts() -> (ts: String)
    ensures
        exists|secs: nat| ts@ == decimal(secs),
{
    let secs = unix_now_secs();
    u64_to_decimal(secs)
}

/// Progress recorded by a marker file with the given content; `None`
/// stands for a missing file.
pub fn progress_from_marker(content: Option<&str>) -> (p: WizardProgress)
    ensures
        p == match content {
            None => WizardProgress::NotStarted,
            Some(c) => progress_of(c@),
        },
{
    match content {
        None => WizardProgress::NotStarted,
        Some(c) => parse_progress(c),
    }
}

/// True when the marker file (its content, or `None` when missing) says
/// the wizard is complete.
pub fn is_complete(marker: Option<&str>) -> (b: bool)
    ensures
        b == (match marker {
            None => false,
            Some(c) => progress_of(c@) == WizardProgress::Complete,
        }),
{
    match progress_from_marker(marker) {
        WizardProgress::Complete => true,
        _ => false,
    }
}


/// Appending the completion line, stamped with any decimal time, to a
/// marker file that carries the `v=2` header and ends with a newline makes
/// the wizard read as complete.
pub proof fn lemma_mark_complete_reads_complete(s: Seq<char>, secs: nat)
    requires
        some_line_is(s, SCHEMA_VERSION@),
        s.len() > 0,
        s.last() == '\n',
    ensures
        progress_of(s + complete_line(decimal(secs))) == WizardProgress::Complete,
{
    reveal_strlit("step.complete=");
    reveal_strlit("\n");
    reveal_strlit("v=2");
    let ts = decimal(secs);
    lemma_decimal_digits(secs);
    let line = "step.complete="@ + ts;
    let t = complete_line(ts);
    assert(t =~= line.push('\n'));
    assert forall|k: int| 0 <= k < line.len() implies line[k] != '\n' by {
        if k >= 14 {
            assert(line[k] == ts[k - 14]);
        }
    }
    lemma_split_lines_no_newline(line);
    assert(t.drop_last() =~= line);
    assert(t.last() == '\n');
    assert(split_lines(t) == split_lines(line).push(Seq::<char>::empty()));
    lemma_split_lines_append(s, t);
    lemma_split_lines_nonempty(s);
    let all = split_lines(s + t);
    let before = split_lines(s).drop_last();
    // the header survives
    let i = choose|i: int| 0 <= i < split_lines(s).len() && trim(#[trigger] split_lines(s)[i]) == SCHEMA_VERSION@;
    assert(s.drop_last().push('\n') =~= s);
    assert(split_lines(s).last() == Seq::<char>::empty());
    assert(trim(Seq::<char>::empty()) == Seq::<char>::empty());
    assert(i < before.len());
    assert(all[i] == split_lines(s)[i]);
    assert(some_line_is(s + t, SCHEMA_VERSION@));
    // and the completion line is there
    assert(all[before.len() as int] == line);
    assert(line[0] == 's');
    assert(line.last() == ts.last());
    lemma_trim_of_unpadded(line);
    assert(line.subrange(0, 14) =~= "step.complete="@);
    assert(has_prefix(trim(all[before.len() as int]), "step.complete="@));
    assert(some_line_starts_with(s + t, "step.complete="@));
}


proof fn lemma_last_completed_at_least(s: Seq<char>, n: nat, k: nat)
    requires
        k < n <= STEP_PREFIX_COUNT,
        some_line_starts_with(s, step_prefix(k)),
    ensures
        last_completed(s, n).is_some(),
        last_completed(s, n).unwrap() >= k,
    decreases n,
{
    if n - 1 != k && !some_line_starts_with(s, step_prefix((n - 1) as nat)) {
        lemma_last_completed_at_least(s, (n - 1) as nat, k);
    }
}

proof fn lemma_step_line_has_prefix(step: WizardStep, ts: Seq<char>)
    requires
        step_index(step) < 7,
    ensures
        has_prefix("step."@ + step_key(step) + ".done="@ + ts, step_prefix(step_index(step))),
{
    reveal_strlit("step.");
    reveal_strlit(".done=");
    reveal_strlit("welcome");
    reveal_strlit("audio");
    reveal_strlit("provider");
    reveal_strlit("api_key");
    reveal_strlit("model");
    reveal_strlit("language");
    reveal_strlit("crash_report");
    reveal_strlit("step.welcome.done=");
    reveal_strlit("step.audio.done=");
    reveal_strlit("step.provider.done=");
    reveal_strlit("step.api_key.");
    reveal_strlit("step.model.done=");
    reveal_strlit("step.language.done=");
    reveal_strlit("step.crash_report.done=");
    let line = "step."@ + step_key(step) + ".done="@ + ts;
    let p = step_prefix(step_index(step));
    assert(line.subrange(0, p.len() as int) =~= p);
}

/// Appending the line that records a step as done (stamped with any
/// decimal time) to a marker file that carries the `v=2` header and ends
/// with a newline makes the wizard read as complete or as resuming at that
/// step or later.
pub proof fn lemma_mark_step_done_reads_back(s: Seq<char>, step: WizardStep, secs: nat)
    requires
        some_line_is(s, SCHEMA_VERSION@),
        s.len() > 0,
        s.last() == '\n',
        step_index(step) < 7,
    ensures
        match progress_of(s + step_done_line(step, decimal(secs))) {
            WizardProgress::Complete => true,
            WizardProgress::Resume(j) => j >= step_index(step),
            WizardProgress::NotStarted => false,
        },
{
    reveal_strlit("step.");
    reveal_strlit(".done=");
    reveal_strlit("\n");
    reveal_strlit("v=2");
    reveal_strlit("welcome");
    reveal_strlit("audio");
    reveal_strlit("provider");
    reveal_strlit("api_key");
    reveal_strlit("model");
    reveal_strlit("language");
    reveal_strlit("crash_report");
    let ts = decimal(secs);
    lemma_decimal_digits(secs);
    let line = "step."@ + step_key(step) + ".done="@ + ts;
    let t = step_done_line(step, ts);
    assert(t =~= line.push('\n'));
    let hl = 5 + step_key(step).len() + 6;
    assert forall|k: int| 0 <= k < line.len() implies line[k] != '\n' by {
        if k >= hl {
            assert(line[k] == ts[k - hl]);
        }
    }
    lemma_split_lines_no_newline(line);
    assert(t.drop_last() =~= line);
    assert(t.last() == '\n');
    assert(split_lines(t) == split_lines(line).push(Seq::<char>::empty()));
    lemma_split_lines_append(s, t);
    lemma_split_lines_nonempty(s);
    let all = split_lines(s + t);
    let before = split_lines(s).drop_last();
    let i = choose|i: int| 0 <= i < split_lines(s).len() && trim(#[trigger] split_lines(s)[i]) == SCHEMA_VERSION@;
    assert(s.drop_last().push('\n') =~= s);
    assert(split_lines(s).last() == Seq::<char>::empty());
    assert(trim(Seq::<char>::empty()) == Seq::<char>::empty());
    assert(i < before.len());
    assert(all[i] == split_lines(s)[i]);
    assert(some_line_is(s + t, SCHEMA_VERSION@));
    assert(all[before.len() as int] == line);
    assert(line[0] == 's');
    assert(line.last() == ts.last());
    lemma_trim_of_unpadded(line);
    lemma_step_line_has_prefix(step, ts);
    let k = step_index(step);
    assert(has_prefix(trim(all[before.len() as int]), step_prefix(k)));
    assert(some_line_starts_with(s + t, step_prefix(k)));
    lemma_last_completed_at_least(s + t, STEP_PREFIX_COUNT as nat, k);
}

} // verus!
