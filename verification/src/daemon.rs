//! Scheduling decisions of the background daemon.
use vstd::prelude::*;

verus! {

/// Seconds in an hour.
pub const SECONDS_PER_HOUR: u64 = 3600;

/// Whether database cleanup runs after the `cycles`-th collection cycle:
/// when the number of cycles per hour (an hour divided by the interval,
/// an interval of 0 counting as 1) is positive and divides `cycles`.
pub open spec fn cleanup_due_after(cycles: nat, interval: nat) -> bool {
    let per_hour = 3600nat / if interval == 0 { 1nat } else { interval };
    per_hour > 0 && cycles % per_hour == 0
}

/// Decides whether to clean up the database after a collection cycle.
pub fn cleanup_due(cycles: u64, interval: u64) -> (due: bool)
    ensures
        due == cleanup_due_after(cycles as nat, interval as nat),
{
    let step = if interval > 1 { interval } else { 1 };
    let per_hour = SECONDS_PER_HOUR / step;
    per_hour > 0 && cycles % per_hour == 0
}

/// With an interval of an hour or less, cleanup runs after cycle `k` and
/// next after cycle `k + 3600nat / interval`, and at no cycle in between.
pub proof fn cleanup_period(cycles: nat, interval: nat, k: nat)
    requires
        1 <= interval <= 3600,
        cleanup_due_after(cycles, interval),
        0 < k < 3600nat / interval,
    ensures
        cleanup_due_after(cycles + 3600nat / interval, interval),
        !cleanup_due_after(cycles + k, interval),
{
    let p = 3600nat / interval;
    assert(p >= 1) by (nonlinear_arith)
        requires p == 3600nat / interval, 1 <= interval <= 3600;
    assert((cycles + p) % p == 0) by (nonlinear_arith)
        requires cycles % p == 0, p >= 1;
    assert((cycles + k) % p == k) by (nonlinear_arith)
        requires cycles % p == 0, p >= 1, 0 < k < p;
}

/// With an interval longer than an hour, cleanup never runs.
pub proof fn no_cleanup_beyond_an_hour(cycles: nat, interval: nat)
    requires
        interval > 3600,
    ensures
        !cleanup_due_after(cycles, interval),
{
    assert(3600nat / interval == 0) by (nonlinear_arith)
        requires interval > 3600;
}

} // verus!
