//! Points in time, as the queue compares and shifts them.

use vstd::prelude::*;

verus! {

/// A point in time on the UTC time line: whole seconds since the Unix epoch and
/// the nanoseconds that follow them.
///
/// The nanosecond part may exceed 999,999,999 to denote a leap second; two
/// instants are ordered by their seconds first and their nanoseconds second.
#[derive(Clone, Copy, Debug, PartialEq, Eq, Structural)]
pub struct Instant {
    pub secs: i64,
    pub nanos: u32,
}

impl Instant {
    /// `self` is not later than `other`.
    pub open spec fn at_or_before(self, other: Instant) -> bool {
        self.secs < other.secs || (self.secs == other.secs && self.nanos <= other.nanos)
    }

    /// `self` is strictly earlier than `other`.
    pub open spec fn before(self, other: Instant) -> bool {
        self.secs < other.secs || (self.secs == other.secs && self.nanos < other.nanos)
    }

    /// The instant `delay` seconds after `self`, held at the last representable
    /// second where the sum would leave the range of `i64`.
    pub open spec fn shifted(self, delay: u32) -> Instant {
        Instant {
            secs: if self.secs + delay > i64::MAX { i64::MAX } else { (self.secs + delay) as i64 },
            nanos: self.nanos,
        }
    }

    /// Builds an instant from its two parts.
    pub fn new(secs: i64, nanos: u32) -> (t: Instant)
        ensures
            t == (Instant { secs, nanos }),
    {
        Instant { secs, nanos }
    }

    /// Tells whether `self` is not later than `other`.
    pub fn is_at_or_before(&self, other: &Instant) -> (b: bool)
        ensures
            b == self.at_or_before(*other),
    {
        self.secs < other.secs || (self.secs == other.secs && self.nanos <= other.nanos)
    }

    /// Tells whether `self` is strictly earlier than `other`.
    pub fn is_before(&self, other: &Instant) -> (b: bool)
        ensures
            b == self.before(*other),
    {
        self.secs < other.secs || (self.secs == other.secs && self.nanos < other.nanos)
    }

    /// Moves the instant `delay` seconds into the future, saturating at the
    /// largest representable second.
    pub fn plus_seconds(&self, delay: u32) -> (t: Instant)
        ensures
            t == self.shifted(delay),
    {
        let room: i64 = i64::MAX - (delay as i64);
        if self.secs > room {
            Instant { secs: i64::MAX, nanos: self.nanos }
        } else {
            Instant { secs: self.secs + (delay as i64), nanos: self.nanos }
        }
    }
}

} // verus!
