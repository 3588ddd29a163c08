//! Monotonic time as plain nanosecond counts.
//!
//! The specifications assumed here for `std::time` are believed, not proved.

use std::time::Duration;
use std::time::Instant;
use vstd::prelude::*;

verus! {

/// `std::time::Instant`, declared so that a clock can hold its origin.
#[verifier::external_type_specification]
#[verifier::external_body]
pub struct ExInstant(Instant);

/// The whole number of nanoseconds that a `Duration` spans, as
/// `Duration::as_nanos` reports it.
pub uninterp spec fn duration_nanos(d: Duration) -> u128;

/// The instant at which an entry written at `now` with time-to-live `ttl`
/// stops being valid. A sum beyond the clock's range stays at its end.
pub open spec fn deadline(now: u128, ttl: u128) -> u128 {
    if now + ttl > u128::MAX {
        u128::MAX
    } else {
        (now + ttl) as u128
    }
}

/// `Duration::as_nanos`. The contract only gives the result its name: the
/// total nanoseconds of the duration.
pub assume_specification[ Duration::as_nanos ](d: &Duration) -> (n: u128)
    ensures
        n == duration_nanos(*d),
;

/// `Duration::from_secs`. Claims that a duration made from whole seconds
/// spans a billion nanoseconds for each of them.
pub assume_specification[ Duration::from_secs ](secs: u64) -> (d: Duration)
    ensures
        duration_nanos(d) == secs * 1_000_000_000,
;

/// `Instant::now`. Nothing is claimed of the reading.
pub assume_specification[ Instant::now ]() -> (t: Instant)
;

/// `Instant::elapsed`. Nothing is claimed of the reading.
pub assume_specification[ Instant::elapsed ](origin: &Instant) -> (d: Duration)
;

/// A monotonic clock that counts nanoseconds from the moment it was started.
pub struct Clock {
    origin: Instant,
}

impl Clock {
    /// Starts a clock; its readings count from this call.
    pub fn start() -> (clock: Clock) {
        Clock { origin: Instant::now() }
    }

    /// The nanoseconds that have passed since the clock was started.
    pub fn now(&self) -> (nanos: u128) {
        let passed = self.origin.elapsed();
        passed.as_nanos()
    }
}

/// Computes `deadline(now, ttl)`.
pub fn deadline_after(now: u128, ttl: u128) -> (at: u128)
    ensures
        at == deadline(now, ttl),
{
    now.saturating_add(ttl)
}

} // verus!
