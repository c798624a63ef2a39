use vstd::prelude::*;

use crate::state::MAX_NOW_MS;

verus! {

/// Relies on `chrono::Utc::now` and `DateTime::timestamp_millis`: the
/// current wall-clock time as whole milliseconds since the Unix epoch.
/// Nothing can be promised about a clock reading.
#[verifier::external_body]
fn utc_timestamp_ms() -> i64 {
    chrono::Utc::now().timestamp_millis()
}

/// The current wall-clock time in whole milliseconds since the Unix epoch,
/// clamped into the range the schedule arithmetic accepts.
pub fn current_time_ms() -> (r: u64)
    ensures
        r <= MAX_NOW_MS,
{
    let t = utc_timestamp_ms();
    if t <= 0 {
        0
    } else if t as u64 > MAX_NOW_MS {
        MAX_NOW_MS
    } else {
        t as u64
    }
}

} // verus!
