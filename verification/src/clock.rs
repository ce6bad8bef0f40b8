//! Reading the wall clock as time since the Unix epoch.
//!
//! What the clock reads is outside the library's control, so nothing is
//! stated of it; the functions here only say how a reading becomes
//! milliseconds or seconds.
use std::time::{Duration, SystemTime};
use vstd::prelude::*;

verus! {

#[verifier::external_type_specification]
#[verifier::external_body]
pub struct ExSystemTime(SystemTime);

/// Calls `std::time::SystemTime::now`: the wall clock, of which nothing is
/// stated.
#[verifier::external_body]
pub(crate) fn wall_clock_now() -> (t: SystemTime) {
    SystemTime::now()
}

/// Calls `SystemTime::duration_since` with `UNIX_EPOCH`: the time since
/// the epoch, `None` when the reading is earlier. A `Duration` is opaque
/// to the library, so nothing is stated of the result.
#[verifier::external_body]
fn since_epoch(t: &SystemTime) -> (d: Option<Duration>) {
    t.duration_since(std::time::UNIX_EPOCH).ok()
}

/// Calls `Duration::as_millis`: the whole milliseconds of a duration. A
/// `Duration` is opaque to the library, so the result is not tied to it.
#[verifier::external_body]
fn duration_millis(d: &Duration) -> (ms: u128) {
    d.as_millis()
}

/// Calls `Duration::as_secs`: the whole seconds of a duration. A
/// `Duration` is opaque to the library, so the result is not tied to it.
#[verifier::external_body]
fn duration_secs(d: &Duration) -> (s: u64) {
    d.as_secs()
}

/// Unix-epoch milliseconds on the wall clock (kept to their low 64 bits),
/// 0 when the clock reads earlier than the epoch.
pub(crate) fn unix_now_ms() -> (ms: u64) {
    match since_epoch(&wall_clock_now()) {
        Some(d) => {
            let total = duration_millis(&d);
            #[verifier::truncate]
            (total as u64)
        },
        None => 0,
    }
}

/// Whole seconds since the Unix epoch on the wall clock, 0 when the clock
/// reads earlier than the epoch.
pub(crate) fn unix_now_secs() -> (secs: u64) {
    match since_epoch(&wall_clock_now()) {
        Some(d) => duration_secs(&d),
        None => 0,
    }
}

} // verus!
