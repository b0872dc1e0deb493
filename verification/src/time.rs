//! Durations and clocks, from the standard library and `chrono`.

use vstd::prelude::*;
use std::time::Duration;

verus! {

/// The `Duration` that `std::time::Duration::from_secs` builds from a number of seconds.
pub uninterp spec fn secs_duration(secs: u64) -> Duration;

/// `std::time::Duration::from_secs`.
///
/// Trusted: the result is a function of the argument, named by `secs_duration`.
#[verifier::external_body]
pub(crate) fn duration_from_secs(secs: u64) -> (d: Duration)
    ensures
        d == secs_duration(secs),
{
    Duration::from_secs(secs)
}

/// The current wall-clock time in milliseconds since the Unix epoch, from
/// `chrono::Utc::now`.
///
/// Trusted only in that it returns: the value depends on the clock, so
/// nothing is stated about it.
#[verifier::external_body]
pub(crate) fn utc_now_millis() -> i64 {
    chrono::Utc::now().timestamp_millis()
}

} // verus!
