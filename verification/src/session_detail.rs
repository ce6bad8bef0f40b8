//! Labels of the session detail and history views: dates, durations,
//! summary previews and the clipboard text of a summary.
use crate::format::{decimal, int_decimal, push_char, push_i64, push_padded, push_str, push_u64, string_from_chars, tdiv, zero_pad};
use crate::storage::{Segment, Session, Summary};
use crate::text::chars_of;
use vstd::prelude::*;

verus! {

/// Civil date `(year, month, day)` of the day numbered `z` counting from
/// 1970-01-01, by the era-based conversion of the proleptic Gregorian
/// calendar (400-year eras of 146097 days, years starting in March).
pub open spec fn civil_from_days(z: nat) -> (nat, nat, nat) {
    let z = z + 719468;
    let era = z / 146097;
    let doe = z % 146097;
    let yoe = ((doe - doe / 1460 + doe / 36524 - doe / 146096) / 365) as nat;
    let y = yoe + era * 400;
    let doy = (doe - (365 * yoe + yoe / 4 - yoe / 100)) as nat;
    let mp = (5 * doy + 2) / 153;
    let d = (doy - (153 * mp + 2) / 5 + 1) as nat;
    let mo = if mp < 10 { mp + 3 } else { (mp - 9) as nat };
    let y = if mo <= 2 { y + 1 } else { y };
    (y, mo, d)
}

proof fn lemma_civil_steps(doe: int)
    requires
        0 <= doe < 146097,
    ensures
        0 <= doe - doe / 1460 + doe / 36524 - doe / 146096,
        (doe - doe / 1460 + doe / 36524 - doe / 146096) / 365 <= 399,
        ({
            let yoe = (doe - doe / 1460 + doe / 36524 - doe / 146096) / 365;
            let doy = doe - (365 * yoe + yoe / 4 - yoe / 100);
            &&& 0 <= doy <= 365
            &&& 0 <= 365 * yoe + yoe / 4 - yoe / 100
        }),
{
    assert(0 <= doe - doe / 1460 + doe / 36524 - doe / 146096) by (nonlinear_arith)
        requires
            0 <= doe < 146097,
    ;
    assert((doe - doe / 1460 + doe / 36524 - doe / 146096) / 365 <= 399) by (nonlinear_arith)
        requires
            0 <= doe < 146097,
    ;
    let yoe = (doe - doe / 1460 + doe / 36524 - doe / 146096) / 365;
    assert(0 <= doe - (365 * yoe + yoe / 4 - yoe / 100) <= 365) by (nonlinear_arith)
        requires
            0 <= doe < 146097,
            yoe == (doe - doe / 1460 + doe / 36524 - doe / 146096) / 365,
    ;
}

/// The conversion always gives a month from 1 to 12 and a day from 1 to 31.
pub proof fn lemma_civil_from_days_in_range(z: nat)
    ensures
        1 <= civil_from_days(z).1 <= 12,
        1 <= civil_from_days(z).2 <= 31,
{
    let zz = z + 719468;
    let doe = zz % 146097;
    lemma_civil_steps(doe as int);
    let yoe = (doe - doe / 1460 + doe / 36524 - doe / 146096) / 365;
    let doy = doe - (365 * yoe + yoe / 4 - yoe / 100);
    let mp = (5 * doy + 2) / 153;
    assert(0 <= mp <= 11);
    assert(1 <= doy - (153 * mp + 2) / 5 + 1 <= 31) by (nonlinear_arith)
        requires
            0 <= doy <= 365,
            mp == (5 * doy + 2) / 153,
    ;
}

/// Converts a day count since 1970-01-01 to `(year, month, day)`.
pub fn days_to_ymd(z: u64) -> (r: (u64, u64, u64))
    requires
        z <= u64::MAX - 719468,
    ensures
        (r.0 as nat, r.1 as nat, r.2 as nat) == civil_from_days(z as nat),
{
    let z = z + 719468;
    let era = z / 146097;
    let doe = z % 146097;
    proof {
        lemma_civil_steps(doe as int);
    }
    let yoe = (doe - doe / 1460 + doe / 36524 - doe / 146096) / 365;
    assert(era * 400 <= u64::MAX / 146097 * 400) by (nonlinear_arith)
        requires
            era == z / 146097,
    ;
    let y = yoe + era * 400;
    let doy = doe - (365 * yoe + yoe / 4 - yoe / 100);
    let mp = (5 * doy + 2) / 153;
    assert(0 <= (153 * mp + 2) / 5 <= doy) by (nonlinear_arith)
        requires
            0 <= doy <= 365,
            mp == (5 * doy + 2) / 153,
    ;
    let d = doy - (153 * mp + 2) / 5 + 1;
    let mo = if mp < 10 {
        mp + 3
    } else {
        mp - 9
    };
    let y = if mo <= 2 {
        y + 1
    } else {
        y
    };
    (y, mo, d)
}

/// Date-and-time label `YYYY-MM-DD HH:MM` of a count of milliseconds since
/// 1970-01-01 00:00 on the clock being shown.
pub open spec fn timestamp_label(ms: nat) -> Seq<char> {
    let total_secs = ms / 1000;
    let (y, mo, d) = civil_from_days(total_secs / 86400);
    let tod = total_secs % 86400;
    zero_pad(decimal(y), 4) + seq!['-'] + zero_pad(decimal(mo), 2) + seq!['-'] + zero_pad(
        decimal(d),
        2,
    ) + seq![' '] + zero_pad(decimal(tod / 3600), 2) + seq![':'] + zero_pad(
        decimal((tod % 3600) / 60),
        2,
    )
}

/// Local-time label of an epoch-millisecond time in a zone `offset_secs`
/// seconds ahead of UTC: `YYYY-MM-DD HH:MM` of the local time, or, when the
/// local time falls before 1970, the milliseconds followed by `ms`.
pub open spec fn local_timestamp_label(ms: int, offset_secs: int) -> Seq<char> {
    let local = ms + offset_secs * 1000;
    if local < 0 {
        int_decimal(ms) + "ms"@
    } else {
        timestamp_label(local as nat)
    }
}

/// Formats an epoch-millisecond time as `YYYY-MM-DD HH:MM` in local time,
/// for a zone `utc_offset_secs` seconds ahead of UTC (see
/// `local_timestamp_label`).
pub fn format_timestamp_ms(ms: i64, utc_offset_secs: i32) -> (r: String)
    ensures
        r@ == local_timestamp_label(ms as int, utc_offset_secs as int),
{
    let local: i128 = ms as i128 + (utc_offset_secs as i128) * 1000;
    if local < 0 {
        let mut r = String::new();
        push_i64(&mut r, ms);
        push_str(&mut r, "ms");
        proof {
            reveal_strlit("ms");
        }
        return r;
    }
    let total_secs: u64 = (local as u64) / 1000;
    let days = total_secs / 86400;
    let time_of_day = total_secs % 86400;
    let h = time_of_day / 3600;
    let m = (time_of_day % 3600) / 60;
    let (y, mo, da) = days_to_ymd(days);
    let mut r = String::new();
    push_padded(&mut r, y, 4);
    push_char(&mut r, '-');
    push_padded(&mut r, mo, 2);
    push_char(&mut r, '-');
    push_padded(&mut r, da, 2);
    push_char(&mut r, ' ');
    push_padded(&mut r, h, 2);
    push_char(&mut r, ':');
    push_padded(&mut r, m, 2);
    proof {
        assert(r@ =~= timestamp_label(local as nat));
    }
    r
}

/// Preview text of a summary in the history list: a placeholder when
/// there is none, the content itself up to 80 characters, else its first
/// 80 characters and an ellipsis.
pub open spec fn preview_of(content: Option<Seq<char>>) -> Seq<char> {
    match content {
        None => "Chưa tóm tắt"@,
        Some(c) => if c.len() <= 80 {
            c
        } else {
            c.take(80).push('…')
        },
    }
}

/// The history-row preview of an optional summary.
pub fn summary_preview(summary: Option<&Summary>) -> (r: String)
    ensures
        r@ == preview_of(match summary {
            Some(s) => Some(s.content@),
            None => None,
        }),
{
    match summary {
        None => {
            let mut r = String::new();
            push_str(&mut r, "Chưa tóm tắt");
            r
        },
        Some(s) => {
            let cs = chars_of(s.content.as_str());
            if cs.len() <= 80 {
                string_from_chars(cs.as_slice())
            } else {
                let mut r = String::new();
                let mut i: usize = 0;
                while i < 80
                    invariant
                        i <= 80 < cs@.len(),
                        r@ == cs@.take(i as int),
                    decreases 80 - i,
                {
                    push_char(&mut r, cs[i]);
                    proof {
                        assert(r@ =~= cs@.take(i + 1));
                    }
                    i = i + 1;
                }
                push_char(&mut r, '…');
                r
            }
        },
    }
}

/// Duration label: `—` when unknown or zero, `Xm Ys` from one minute on,
/// `Xs` below (seconds by truncating division, as a `u64`).
pub open spec fn duration_label(duration_ms: Option<i64>) -> Seq<char> {
    match duration_ms {
        None => "—"@,
        Some(ms) => if ms == 0 {
            "—"@
        } else {
            let secs = tdiv(ms as int, 1000) as u64;
            if secs >= 60 {
                decimal((secs / 60) as nat) + seq!['m', ' '] + decimal((secs % 60) as nat) + seq!['s']
            } else {
                decimal(secs as nat) + seq!['s']
            }
        },
    }
}

/// Formats a session duration for the history list.
pub fn format_duration(duration_ms: Option<i64>) -> (r: String)
    ensures
        r@ == duration_label(duration_ms),
{
    match duration_ms {
        None => {
            let mut r = String::new();
            push_str(&mut r, "—");
            r
        },
        Some(ms) => {
            if ms == 0 {
                let mut r = String::new();
                push_str(&mut r, "—");
                return r;
            }
            let (q, _) = crate::format::div_rem_i64(ms, 1000);
            let secs = q as u64;
            let mut r = String::new();
            if secs >= 60 {
                push_u64(&mut r, secs / 60);
                push_char(&mut r, 'm');
                push_char(&mut r, ' ');
                push_u64(&mut r, secs % 60);
                push_char(&mut r, 's');
            } else {
                push_u64(&mut r, secs);
                push_char(&mut r, 's');
            }
            proof {
                assert(r@ =~= duration_label(duration_ms));
            }
            r
        },
    }
}

/// Everything the session detail view shows.
#[derive(Debug)]
pub struct SessionDetailLoad {
    pub session: Session,
    pub summary: Option<Summary>,
    pub segments: Vec<Segment>,
}

/// Clipboard text of a session's summary: a header naming the session
/// and its start, a blank line, then the content; empty without summary.
pub open spec fn clipboard_text(session: Session, summary: Option<Summary>, offset_secs: int) -> Seq<char> {
    match summary {
        None => Seq::<char>::empty(),
        Some(s) => "Tóm tắt phiên #"@ + int_decimal(session.id as int) + " ("@
            + local_timestamp_label(session.started_at_ms as int, offset_secs) + seq![')', '\n', '\n'] + s.content@,
    }
}

/// Formats a summary for copying to the clipboard, the start in local time
/// for a zone `utc_offset_secs` seconds ahead of UTC.
pub fn format_summary_for_clipboard(detail: &SessionDetailLoad, utc_offset_secs: i32) -> (r: String)
    ensures
        r@ == clipboard_text(detail.session, detail.summary, utc_offset_secs as int),
{
    match &detail.summary {
        None => String::new(),
        Some(s) => {
            let mut r = String::new();
            push_str(&mut r, "Tóm tắt phiên #");
            push_i64(&mut r, detail.session.id);
            push_str(&mut r, " (");
            let started = format_timestamp_ms(detail.session.started_at_ms, utc_offset_secs);
            push_str(&mut r, started.as_str());
            push_char(&mut r, ')');
            push_char(&mut r, '\n');
            push_char(&mut r, '\n');
            push_str(&mut r, s.content.as_str());
            proof {
                assert(r@ =~= clipboard_text(detail.session, detail.summary, utc_offset_secs as int));
            }
            r
        },
    }
}

/// A session's duration label counts whole minutes without wrapping: from
/// one minute on it reads `Xm Ys` with `Y < 60` and `60 * X + Y` the
/// session's whole seconds.
pub proof fn lemma_duration_counts_total_minutes(ms: i64)
    requires
        ms >= 60_000,
    ensures
        exists|x: nat, y: nat|
            {
                &&& y < 60
                &&& 60 * x + y == ms / 1000
                &&& #[trigger] duration_label(Some(ms)) == decimal(x) + seq!['m', ' '] + decimal(y) + seq!['s']
            },
{
    let secs: int = ms / 1000;
    let x: nat = (secs / 60) as nat;
    let y: nat = (secs % 60) as nat;
    assert(tdiv(ms as int, 1000) == secs);
    assert(secs >= 60);
    assert((secs as u64) as int == secs);
    assert(secs == 60 * x + y);
    assert(duration_label(Some(ms)) == decimal(x) + seq!['m', ' '] + decimal(y) + seq!['s']);
}

} // verus!
