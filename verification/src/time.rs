//! The monotonic clock and `Duration`, as the library's logic sees them.

use std::time::{Duration, Instant};
use vstd::prelude::*;

verus! {

#[verifier::external_type_specification]
#[verifier::external_body]
pub struct ExInstant(Instant);

/// The length of a `Duration` in nanoseconds, as `Duration::as_nanos` gives it.
pub uninterp spec fn duration_nanos(d: Duration) -> nat;

/// Reads the monotonic clock (`Instant::now`). Nothing is stated of the
/// reading: it depends on the time of the call.
#[verifier::external_body]
pub(crate) fn instant_now() -> Instant {
    Instant::now()
}

/// The time elapsed since `at` (`Instant::elapsed`). Nothing is stated of
/// the value: it depends on the time of the call.
#[verifier::external_body]
pub(crate) fn elapsed_since(at: &Instant) -> Duration {
    at.elapsed()
}

/// `Duration::as_nanos`: the result is the duration's length in nanoseconds.
#[verifier::external_body]
pub(crate) fn nanos_of(d: &Duration) -> (n: u128)
    ensures
        n as nat == duration_nanos(*d),
{
    d.as_nanos()
}

/// `Duration::from_millis`: the result lasts `ms` milliseconds.
#[verifier::external_body]
pub(crate) fn duration_from_millis(ms: u64) -> (d: Duration)
    ensures
        duration_nanos(d) == ms as nat * 1_000_000,
{
    Duration::from_millis(ms)
}

} // verus!
