use vstd::prelude::*;

use std::time::{Duration, Instant};

verus! {

#[verifier::external_type_specification]
#[verifier::external_body]
pub struct ExInstant(Instant);

/// Relies on `Instant::now`: reads the monotonic clock; nothing is known of the value.
pub assume_specification[ Instant::now ]() -> Instant;

/// Relies on `Instant::elapsed`: the time since the instant; it depends on the clock.
pub assume_specification[ Instant::elapsed ](i: &Instant) -> Duration;

/// Relies on `Duration::as_nanos`: the whole duration in nanoseconds.
pub assume_specification[ Duration::as_nanos ](d: &Duration) -> u128;

/// Relies on `Duration::new`, which panics only when the carry from
/// `nanos` into whole seconds overflows; below one second there is no carry.
pub assume_specification[ Duration::new ](secs: u64, nanos: u32) -> Duration
    requires
        nanos < 1_000_000_000,
;

/// Relies on `Duration::from_millis`.
pub assume_specification[ Duration::from_millis ](millis: u64) -> Duration;

/// Nanoseconds in a second.
pub const NANOS_PER_SEC: u128 = 1_000_000_000;

/// The time left of `timeout` after `elapsed`, clamped at zero.
pub open spec fn spec_remaining(timeout: u128, elapsed: u128) -> u128 {
    if elapsed >= timeout {
        0
    } else {
        (timeout - elapsed) as u128
    }
}

/// The nanoseconds left of a `timeout` once `elapsed` nanoseconds have
/// passed; zero once the deadline is reached, never negative.
pub fn remaining_nanos(timeout: u128, elapsed: u128) -> (r: u128)
    ensures
        r == spec_remaining(timeout, elapsed),
{
    if elapsed >= timeout {
        0
    } else {
        timeout - elapsed
    }
}

/// Whether a deadline `timeout` nanoseconds away has been reached after
/// `elapsed` nanoseconds: exactly when nothing is left of it.
pub fn deadline_passed(timeout: u128, elapsed: u128) -> (r: bool)
    ensures
        r == (spec_remaining(timeout, elapsed) == 0),
{
    remaining_nanos(timeout, elapsed) == 0
}

/// A deadline derived once from an optional duration; `None` waits forever.
pub struct PollTimeout {
    timeout: Option<Duration>,
    start: Instant,
}

impl PollTimeout {
    /// Whether the deadline is bounded.
    pub closed spec fn is_bounded(&self) -> bool {
        self.timeout is Some
    }

    pub fn new(timeout: Option<Duration>) -> (r: PollTimeout)
        ensures
            r.is_bounded() == (timeout is Some),
    {
        PollTimeout { timeout, start: Instant::now() }
    }

    /// Whether the deadline has passed; an unbounded deadline never passes.
    pub fn elapsed(&self) -> (r: bool)
        ensures
            !self.is_bounded() ==> !r,
    {
        match self.timeout {
            None => false,
            Some(timeout) => deadline_passed(timeout.as_nanos(), self.start.elapsed().as_nanos()),
        }
    }

    /// The time left before the deadline, zero once it has passed; `None` when
    /// the deadline is unbounded.
    pub fn leftover(&self) -> (r: Option<Duration>)
        ensures
            r is Some == self.is_bounded(),
    {
        match self.timeout {
            None => None,
            Some(timeout) => {
                let left = remaining_nanos(timeout.as_nanos(), self.start.elapsed().as_nanos());
                Some(Duration::new((left / NANOS_PER_SEC) as u64, (left % NANOS_PER_SEC) as u32))
            },
        }
    }
}

} // verus!
