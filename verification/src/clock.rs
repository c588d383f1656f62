//! Instants and durations as plain counts of nanoseconds, and the clock that reads them.

use vstd::prelude::*;

verus! {

pub const NANOS_PER_SEC: u128 = 1_000_000_000;

/// The most nanoseconds that a duration of the standard library counts: as many whole seconds as
/// a `u64` holds, and less than one second more.
pub const MAX_ELAPSED_NANOS: u128 = 18_446_744_073_709_551_615_999_999_999;

/// A span of time.
#[derive(Debug, Clone, Copy, PartialEq, Eq, Structural)]
pub struct Duration {
    pub nanos: u128,
}

impl Duration {
    pub fn from_secs(secs: u64) -> (duration: Duration)
        ensures
            duration.nanos == secs * NANOS_PER_SEC,
            duration.nanos == secs * 1_000_000_000,
    {
        Duration { nanos: secs as u128 * NANOS_PER_SEC }
    }
}

/// A moment, counted from the start of the clock that read it.
#[derive(Debug, Clone, Copy, PartialEq, Eq, Structural)]
pub struct Instant {
    pub nanos: u128,
}

impl Instant {
    /// Nanoseconds from `earlier` to `self`, or zero where `earlier` is the later one.
    pub open spec fn nanos_since(self, earlier: Instant) -> int {
        if self.nanos >= earlier.nanos {
            self.nanos - earlier.nanos
        } else {
            0
        }
    }

    pub fn saturating_duration_since(&self, earlier: Instant) -> (elapsed: Duration)
        ensures
            elapsed.nanos == self.nanos_since(earlier),
            earlier.nanos <= self.nanos ==> earlier.nanos + elapsed.nanos == self.nanos,
            earlier.nanos > self.nanos ==> elapsed.nanos == 0,
    {
        if self.nanos >= earlier.nanos {
            Duration { nanos: self.nanos - earlier.nanos }
        } else {
            Duration { nanos: 0 }
        }
    }

    /// The moment `duration` after this one, if it can be counted.
    pub fn checked_add(&self, duration: Duration) -> (later: Option<Instant>)
        ensures
            match later {
                Some(later) => later.nanos == self.nanos + duration.nanos,
                None => self.nanos + duration.nanos > u128::MAX,
            },
    {
        match self.nanos.checked_add(duration.nanos) {
            Some(nanos) => Some(Instant { nanos }),
            None => None,
        }
    }
}

/// The monotonic clock of the standard library.
#[verifier::external_type_specification]
#[verifier::external_body]
pub struct ExStdInstant(std::time::Instant);

/// `std::time::Instant::now` reads the monotonic clock. Nothing is claimed of the reading.
pub assume_specification[ std::time::Instant::now ]() -> (now: std::time::Instant);

/// Nanoseconds on the monotonic clock since `epoch`, by `std::time::Instant::elapsed`. Which number
/// that is depends on when it is read. Whenever that is, it is the count of a
/// `std::time::Duration`, whose whole seconds are a `u64` and whose fraction is less than a second.
#[verifier::external_body]
fn nanos_since_epoch(epoch: &std::time::Instant) -> (nanos: u128)
    ensures
        nanos <= MAX_ELAPSED_NANOS,
{
    epoch.elapsed().as_nanos()
}

/// A running clock. All instants of one program are read from the same clock.
#[derive(Debug)]
pub struct Clock {
    epoch: std::time::Instant,
}

impl Clock {
    /// Starts a clock now.
    pub fn start() -> (clock: Clock) {
        Clock { epoch: std::time::Instant::now() }
    }

    /// Reads the clock. The reading leaves room to add any number of seconds to it.
    pub fn now(&self) -> (now: Instant)
        ensures
            now.nanos <= MAX_ELAPSED_NANOS,
    {
        Instant { nanos: nanos_since_epoch(&self.epoch) }
    }
}

/// Time that has passed, added to the earlier moment, gives the later one. None passes backwards.
pub proof fn law_time_adds_up(earlier: Instant, later: Instant)
    ensures
        earlier.nanos <= later.nanos ==> earlier.nanos + later.nanos_since(earlier) == later.nanos,
        earlier.nanos <= later.nanos ==> earlier.nanos_since(later) == 0,
{
}

} // verus!
