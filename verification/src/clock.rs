//! Reading the clock.  What these return depends on the time of the call,
//! so their contracts promise nothing about the value; the functions that
//! use them take the value as it comes.

use vstd::prelude::*;
use std::time::Instant;

verus! {

#[verifier::external_type_specification]
#[verifier::external_body]
pub struct ExInstant(std::time::Instant);

/// The current instant of the monotonic clock (`Instant::now`).
#[verifier::external_body]
pub(crate) fn instant_now() -> Instant {
    Instant::now()
}

/// Nanoseconds of the monotonic clock since `origin`
/// (`Instant::elapsed`), saturated to `u64`.
#[verifier::external_body]
pub(crate) fn nanos_since(origin: &Instant) -> u64 {
    origin.elapsed().as_nanos().try_into().unwrap_or(u64::MAX)
}

/// Seconds since the Unix epoch (`SystemTime::now()`); 0 if the system
/// clock reads earlier than the epoch.
#[verifier::external_body]
pub(crate) fn unix_time_secs() -> u64 {
    std::time::SystemTime::now().duration_since(std::time::UNIX_EPOCH).map(|d| d.as_secs()).unwrap_or(0)
}

} // verus!
