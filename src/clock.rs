use vstd::prelude::*;
use crate::event::Timestamp;

verus! {

/// A source of timestamps that never goes backwards.
pub trait Clock {
    /// The last time this clock has given out (its start time before any).
    spec fn reading(&self) -> Timestamp;

    /// The current time: never earlier than any time given out before.
    fn now(&mut self) -> (r: Timestamp)
        ensures
            old(self).reading() <= r,
            final(self).reading() == r,
    ;
}

/// A clock under the caller's control: time stands still until advanced.
pub struct ManualClock {
    current: Timestamp,
}

impl ManualClock {
    /// A clock that reads `start`.
    pub fn new(start: Timestamp) -> (r: ManualClock)
        ensures
            r.reading() == start,
    {
        ManualClock { current: start }
    }

    /// Moves the time forward by `by`, stopping at the largest timestamp.
    pub fn advance(&mut self, by: Timestamp)
        ensures
            final(self).reading() == if old(self).reading() + by > u64::MAX {
                u64::MAX as int
            } else {
                old(self).reading() + by
            },
    {
        self.current = self.current.saturating_add(by);
    }
}

impl Clock for ManualClock {
    closed spec fn reading(&self) -> Timestamp {
        self.current
    }

    /// The time the clock stands at; reading it does not move it.
    fn now(&mut self) -> (r: Timestamp)
        ensures
            r == old(self).reading(),
            final(self).reading() == old(self).reading(),
    {
        self.current
    }
}

#[verifier::external_type_specification]
#[verifier::external_body]
pub struct ExInstant(std::time::Instant);

/// Relies on std::time::Instant::now: a reading of the system's monotonic
/// clock, of which nothing is known in advance.
#[verifier::external_body]
fn instant_now() -> (r: std::time::Instant) {
    std::time::Instant::now()
}

/// Relies on std::time::Instant::elapsed: the time passed since the instant.
pub assume_specification[ std::time::Instant::elapsed ](this: &std::time::Instant) -> (r: std::time::Duration);

/// Relies on std::time::Duration::as_nanos: the whole nanoseconds of a
/// duration.
pub assume_specification[ std::time::Duration::as_nanos ](this: &std::time::Duration) -> (r: u128);

/// The system's monotonic clock, counted in nanoseconds from the moment the
/// clock was made.
pub struct SystemClock {
    origin: std::time::Instant,
    last: Timestamp,
}

impl SystemClock {
    /// A clock whose origin is now.
    pub fn new() -> (r: SystemClock)
        ensures
            r.reading() == 0,
    {
        SystemClock { origin: instant_now(), last: 0 }
    }
}

/// Nanoseconds as a timestamp, held at the largest timestamp beyond it.
pub fn saturate_nanos(n: u128) -> (r: Timestamp)
    ensures
        r == if n > u64::MAX as u128 {
            u64::MAX as int
        } else {
            n as int
        },
{
    if n > u64::MAX as u128 {
        u64::MAX
    } else {
        n as u64
    }
}

/// The later of the time last given out and a fresh reading.
pub fn not_before(last: Timestamp, reading: Timestamp) -> (r: Timestamp)
    ensures
        r == if reading < last {
            last
        } else {
            reading
        },
{
    if reading < last {
        last
    } else {
        reading
    }
}

impl Clock for SystemClock {
    closed spec fn reading(&self) -> Timestamp {
        self.last
    }

    fn now(&mut self) -> (r: Timestamp) {
        let elapsed = self.origin.elapsed();
        let n = saturate_nanos(elapsed.as_nanos());
        let r = not_before(self.last, n);
        self.last = r;
        r
    }
}

} // verus!
