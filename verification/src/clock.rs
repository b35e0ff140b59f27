//! The clocks: the monotonic one through `std::time::Instant`, the wall clock through `chrono`.

use std::time::Instant;
use vstd::prelude::*;

verus! {

#[verifier::external_type_specification]
#[verifier::external_body]
pub struct ExInstant(Instant);

/// Calls `Instant::now`. What comes back depends on the clock; nothing is stated of it.
#[verifier::external_body]
pub(crate) fn instant_now() -> (r: Instant) {
    Instant::now()
}

/// Calls `Instant::elapsed` and `Duration::as_nanos`: nanoseconds since `start`.
/// The value depends on the clock; nothing is stated of it.
#[verifier::external_body]
pub(crate) fn elapsed_nanos(start: &Instant) -> (r: u128) {
    start.elapsed().as_nanos()
}

/// Calls `std::time::SystemTime::now`, converts it with chrono's `From<SystemTime> for
/// DateTime<Utc>` (which reads a clock set before 1970 as a negative timestamp rather than
/// failing) and calls `DateTime::to_rfc3339`: the current UTC time as RFC 3339 text. The
/// value depends on the clock; nothing is stated of it. The conversion fails only for a clock
/// reading some 262,000 years away from 1970, beyond the years chrono represents.
#[verifier::external_body]
pub(crate) fn now_rfc3339() -> (r: String) {
    chrono::DateTime::<chrono::Utc>::from(std::time::SystemTime::now()).to_rfc3339()
}

} // verus!
