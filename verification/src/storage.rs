//! Storage-side data and rules: the anomaly record and the retention
//! cutoff used when old rows are deleted.
use vstd::prelude::*;

verus! {

/// An anomaly as recorded in the database.
#[derive(Debug, Clone)]
pub struct AnomalyRow {
    pub id: i64,
    pub timestamp: i64,
    pub pid: Option<i32>,
    pub process_name: String,
    pub severity: String,
    pub reason: String,
}

/// Seconds in a day.
pub const SECONDS_PER_DAY: i64 = 86400;

/// The Unix time before which rows are deleted when `retain_days` days of
/// history are kept at time `now`. The day count is read as a signed
/// number, as the database column holds signed times.
pub fn retention_cutoff(now: i64, retain_days: u64) -> (cutoff: i64)
    requires
        i64::MIN <= (retain_days as i64) * 86400 <= i64::MAX,
        i64::MIN <= now - (retain_days as i64) * 86400 <= i64::MAX,
    ensures
        cutoff == now - (retain_days as i64) * 86400,
{
    now - (retain_days as i64) * SECONDS_PER_DAY
}

} // verus!
