//! Wall-clock readings. The values are machine state, so nothing is
//! promised of them; every caller states what holds whatever time
//! comes back.

use vstd::prelude::*;

verus! {

/// Relies on `chrono::Utc::now` and `DateTime::timestamp`: the current
/// wall-clock time in seconds since the Unix epoch.
#[verifier::external_body]
pub(crate) fn now_unix_secs() -> i64 {
    chrono::Utc::now().timestamp()
}

/// Relies on `chrono::Utc::now` and `DateTime::timestamp_nanos_opt`:
/// the current wall-clock time in nanoseconds since the Unix epoch,
/// zero when out of the representable range.
#[verifier::external_body]
pub(crate) fn now_unix_nanos() -> u64 {
    chrono::Utc::now().timestamp_nanos_opt().unwrap_or(0) as u64
}

} // verus!
