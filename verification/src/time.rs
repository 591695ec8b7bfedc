//! Time spans and points in time as plain integers.
use vstd::prelude::*;

verus! {

/// A span of time.
#[derive(Debug, Clone, Copy, PartialEq, Eq, Structural, Hash)]
pub struct Duration {
    /// Length in nanoseconds.
    pub nanos: u128,
}

impl Duration {
    /// The number of whole milliseconds.
    pub open spec fn millis(self) -> nat {
        self.nanos as nat / 1_000_000
    }

    /// Creates a span from whole milliseconds.
    pub fn from_millis(millis: u64) -> (d: Duration)
        ensures
            d.nanos == millis * 1_000_000,
    {
        Duration { nanos: (millis as u128) * 1_000_000 }
    }

    /// Creates a span from whole seconds.
    pub fn from_secs(secs: u64) -> (d: Duration)
        ensures
            d.nanos == secs * 1_000_000_000,
    {
        Duration { nanos: (secs as u128) * 1_000_000_000 }
    }

    /// Returns the number of whole milliseconds.
    pub fn as_millis(&self) -> (millis: u128)
        ensures
            millis == self.millis(),
    {
        self.nanos / 1_000_000
    }
}

/// A point in time, counted from an arbitrary but fixed origin.
#[derive(Debug, Clone, Copy, PartialEq, Eq, Structural, Hash)]
pub struct Instant {
    /// Nanoseconds since the origin.
    pub nanos: u64,
}

impl Instant {
    /// How much time lies between `earlier` and this point: zero if `earlier`
    /// is the later one.
    pub open spec fn since(self, earlier: Instant) -> nat {
        if earlier.nanos <= self.nanos {
            (self.nanos - earlier.nanos) as nat
        } else {
            0
        }
    }

    /// Returns the time between `earlier` and this point, or zero if `earlier`
    /// is the later one.
    pub fn duration_since(&self, earlier: Instant) -> (d: Duration)
        ensures
            d.nanos == self.since(earlier),
    {
        if earlier.nanos <= self.nanos {
            Duration { nanos: (self.nanos - earlier.nanos) as u128 }
        } else {
            Duration { nanos: 0 }
        }
    }
}

} // verus!
