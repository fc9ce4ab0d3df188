//! Points in time and spans between them, counted in nanoseconds.

use vstd::prelude::*;

verus! {

/// The nanoseconds in one second.
pub const NANOS_PER_SEC: u64 = 1_000_000_000;

/// The longest span: `u64::MAX` seconds and the nanoseconds short of one second more.
pub const MAX_DURATION_NANOS: u128 = 18_446_744_073_709_551_615_999_999_999;

/// A span of time.
#[derive(Debug, PartialEq, Eq, Clone, Copy, Structural)]
pub struct Duration {
    pub nanos: u128,
}

impl Duration {
    /// A span is at most as long as [`MAX_DURATION_NANOS`].
    pub open spec fn wf(self) -> bool {
        self.nanos <= MAX_DURATION_NANOS
    }

    /// A span of whole seconds.
    pub fn from_secs(secs: u64) -> (duration: Self)
        ensures
            duration.wf(),
            duration.nanos == secs * 1_000_000_000,
    {
        Duration { nanos: secs as u128 * 1_000_000_000 }
    }

    /// A span of whole milliseconds.
    pub fn from_millis(millis: u64) -> (duration: Self)
        ensures
            duration.wf(),
            duration.nanos == millis * 1_000_000,
    {
        Duration { nanos: millis as u128 * 1_000_000 }
    }

    /// A span of nanoseconds.
    pub fn from_nanos(nanos: u64) -> (duration: Self)
        ensures
            duration.wf(),
            duration.nanos == nanos,
    {
        Duration { nanos: nanos as u128 }
    }

    /// The whole seconds in this span.
    pub fn as_secs(&self) -> (secs: u64)
        requires
            self.wf(),
        ensures
            secs == self.nanos as int / 1_000_000_000,
    {
        (self.nanos / 1_000_000_000) as u64
    }
}

/// A reading of a monotonic clock: the nanoseconds since the clock started.
#[derive(Debug, PartialEq, Eq, Clone, Copy, Structural)]
pub struct Instant {
    pub nanos: u64,
}

/// The span from one reading to a later one, and nothing where the second is not later.
pub open spec fn nanos_between(earlier: Instant, later: Instant) -> nat {
    if later.nanos >= earlier.nanos {
        (later.nanos - earlier.nanos) as nat
    } else {
        0
    }
}

/// The longest fixed span that the stack looks ahead of a clock reading: ten seconds.
pub const LOOKAHEAD_NANOS: u64 = 10_000_000_000;

impl Instant {
    /// Whether the clock can still show the longest fixed span after this reading.
    pub open spec fn can_look_ahead(self) -> bool {
        self.nanos + LOOKAHEAD_NANOS <= u64::MAX
    }

    /// The span from `earlier` to this reading, or nothing where `earlier` is not earlier.
    pub fn duration_since(&self, earlier: Instant) -> (duration: Duration)
        ensures
            duration.wf(),
            duration.nanos == nanos_between(earlier, *self),
    {
        if self.nanos >= earlier.nanos {
            Duration { nanos: (self.nanos - earlier.nanos) as u128 }
        } else {
            Duration { nanos: 0 }
        }
    }

    /// The reading that the clock gives after `span` has passed.
    pub fn after(&self, span: Duration) -> (later: Instant)
        requires
            self.nanos + span.nanos <= u64::MAX,
        ensures
            later.nanos == self.nanos + span.nanos,
    {
        Instant { nanos: self.nanos + span.nanos as u64 }
    }
}

} // verus!
