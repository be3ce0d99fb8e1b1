//! Time: the readings of the machine's monotonic clock, and spans between them.
//!
//! An `Instant` is opaque; all that the library asks of two of them is how many nanoseconds lie
//! between them. A `Duration` is known by its number of nanoseconds.
use std::time::{Duration, Instant};
use vstd::prelude::*;

verus! {

/// A reading of the monotonic clock.
#[verifier::external_type_specification]
#[verifier::external_body]
pub struct ExInstant(Instant);

/// The number of nanoseconds in a span, as `Duration::as_nanos` gives it.
pub uninterp spec fn duration_nanos(span: Duration) -> nat;

/// The number of nanoseconds from `earlier` to `later`, as `Instant::duration_since` gives it.
pub uninterp spec fn elapsed_nanos(later: Instant, earlier: Instant) -> nat;

/// `Instant::now` reads the clock. Nothing is claimed of the reading.
pub assume_specification[ Instant::now ]() -> (now: Instant)
;

/// Whether an instant may be what reading the clock gives.
pub open spec fn may_read(now: Instant) -> bool {
    call_ensures(Instant::now, (), now)
}

/// The present is what reading the machine's clock gives, and nothing else.
pub proof fn the_present_is_read_from_the_clock(now: Instant)
    ensures
        may_read(now) <==> call_ensures(Instant::now, (), now),
{
}

/// `Instant::duration_since` returns the span from `earlier` to `later`. No time lies between an
/// instant and itself.
pub assume_specification[ Instant::duration_since ](later: &Instant, earlier: Instant) -> (span:
    Duration)
    ensures
        duration_nanos(span) == elapsed_nanos(*later, earlier),
        *later == earlier ==> duration_nanos(span) == 0,
;

/// `Duration::as_nanos` returns the whole number of nanoseconds in the span.
pub assume_specification[ Duration::as_nanos ](span: &Duration) -> (nanos: u128)
    ensures
        nanos == duration_nanos(*span),
;

/// `Duration::from_secs` makes a span of whole seconds.
pub assume_specification[ Duration::from_secs ](secs: u64) -> (span: Duration)
    ensures
        duration_nanos(span) == secs * 1_000_000_000,
;

/// `Duration::from_millis` makes a span of whole milliseconds.
pub assume_specification[ Duration::from_millis ](millis: u64) -> (span: Duration)
    ensures
        duration_nanos(span) == millis * 1_000_000,
;

/// How long a worker may be silent, where nothing else is asked for: ten seconds.
pub fn default_heartbeat_timeout() -> (timeout: Duration)
    ensures
        duration_nanos(timeout) == 10_000_000_000,
{
    Duration::from_secs(10)
}

/// Whether a worker that has been silent for `silence` has used up `timeout`. A silence of exactly
/// the timeout is still tolerated.
pub fn heartbeat_expired(silence: Duration, timeout: Duration) -> (expired: bool)
    ensures
        expired == (duration_nanos(silence) > duration_nanos(timeout)),
{
    silence.as_nanos() > timeout.as_nanos()
}

} // verus!
