//! The pool's clock.

use crate::options::Duration;
use vstd::prelude::*;

verus! {

/// `n0_future::time::Instant`, a reading of the monotonic clock.
#[verifier::external_type_specification]
#[verifier::external_body]
pub struct ExInstant(n0_future::time::Instant);

/// Tells how much time has passed since it was started.
pub struct Clock {
    origin: n0_future::time::Instant,
}

impl Clock {
    /// The reading of the monotonic clock that points in time count from.
    pub closed spec fn origin(self) -> n0_future::time::Instant {
        self.origin
    }

    /// Whether `now` can be what a reading of the clock gives: an outcome of asking
    /// the monotonic clock how much time has passed since `origin`.
    pub closed spec fn reads(self, now: Duration) -> bool {
        call_ensures(elapsed, (&self.origin,), now)
    }

    /// Returns a clock that was started at `origin`.
    pub fn started_at(origin: n0_future::time::Instant) -> (clock: Self)
        ensures
            clock.origin() == origin,
    {
        Clock { origin }
    }

    /// Returns how much time has passed since the clock was started. Which time
    /// that is, is up to the machine.
    pub(crate) fn now(&self) -> (now: Duration)
        ensures
            self.reads(now),
    {
        elapsed(&self.origin)
    }
}

/// Nothing but an outcome of the outside call on the clock's own origin is a reading
/// of the clock.
pub(crate) proof fn readings_come_from_the_monotonic_clock(clock: Clock, now: Duration)
    ensures
        clock.reads(now) <==> call_ensures(elapsed, (&clock.origin(),), now),
{
}

/// Calls `n0_future::time::Instant::elapsed` on `origin`, and takes over the seconds
/// and nanoseconds of the time that has passed. Nothing is claimed of the result,
/// which depends on when the call is made.
#[verifier::external_body]
pub(crate) fn elapsed(origin: &n0_future::time::Instant) -> Duration {
    let passed = origin.elapsed();
    Duration { secs: passed.as_secs(), nanos: passed.subsec_nanos() }
}

} // verus!
