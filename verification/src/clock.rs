//! The system clock, read as time since the Unix epoch.

use vstd::prelude::*;

verus! {

/// Milliseconds since the Unix epoch by the system clock
/// (`SystemTime::now().duration_since(UNIX_EPOCH)` and `as_millis`), or 0
/// where the clock reads before the epoch. The reading itself is not
/// stated; only that its whole seconds fit a `u64`, as the seconds of a
/// `Duration` do.
#[verifier::external_body]
pub(crate) fn unix_now_millis() -> (r: u128)
    ensures
        r / 1000 <= u64::MAX,
{
    match std::time::SystemTime::now().duration_since(std::time::UNIX_EPOCH) {
        Ok(d) => d.as_millis(),
        Err(_) => 0,
    }
}

/// Whole seconds since the Unix epoch by the system clock.
pub(crate) fn unix_now_secs() -> u64 {
    (unix_now_millis() / 1000) as u64
}

} // verus!
