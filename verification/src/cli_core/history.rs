//! The bounded per-process history of the first-generation CLI.
use vstd::prelude::*;

verus! {

/// Most entries kept per process.
pub const MAX_ENTRIES_PER_PROCESS: usize = 1000;

/// Keeps only the last `max` entries, dropping the oldest.
pub fn retain_latest<T>(entries: &mut Vec<T>, max: usize)
    ensures
        old(entries).len() > max ==> final(entries)@ == old(entries)@.subrange(
            old(entries).len() - max,
            old(entries).len() as int,
        ),
        old(entries).len() <= max ==> final(entries)@ == old(entries)@,
{
    let len = entries.len();
    if len > max {
        let latest = entries.split_off(len - max);
        *entries = latest;
    }
}

#[verifier::external_type_specification]
#[verifier::external_body]
pub struct ExSystemTime(std::time::SystemTime);

/// `std::time::SystemTime::now`: the current time of the system clock.
/// It depends on the clock; nothing is stated of it.
#[verifier::external_body]
fn system_now() -> std::time::SystemTime {
    std::time::SystemTime::now()
}

/// `SystemTime::duration_since(UNIX_EPOCH)`: the time elapsed since the
/// epoch, or `None` when it fails (a time before the epoch). The outcome
/// depends on the clock reading; nothing is stated of it.
#[verifier::external_body]
fn since_epoch(t: &std::time::SystemTime) -> Option<std::time::Duration> {
    t.duration_since(std::time::UNIX_EPOCH).ok()
}

/// `Duration::as_secs`: the whole seconds of a duration. A duration is
/// opaque here, so nothing is stated of the result.
#[verifier::external_body]
fn whole_seconds(d: &std::time::Duration) -> u64 {
    d.as_secs()
}

/// The Unix time for a count of whole seconds since the epoch, as a
/// signed number (the count wraps past `i64::MAX`, as `as i64` does);
/// `None` stays `None`.
pub fn unix_time_from(secs: Option<u64>) -> (ts: Option<i64>)
    ensures
        ts == match secs {
            Some(s) => Some(s as i64),
            None => None::<i64>,
        },
{
    match secs {
        Some(s) => Some(s as i64),
        None => None,
    }
}

/// The current Unix time in seconds; `None` when the system clock reads a
/// time before 1970.
pub fn now_ts() -> (ts: Option<i64>) {
    let secs = match since_epoch(&system_now()) {
        Some(d) => Some(whole_seconds(&d)),
        None => None,
    };
    unix_time_from(secs)
}

} // verus!
