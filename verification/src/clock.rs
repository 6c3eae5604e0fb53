//! Wall-clock time as the wire and the logs carry it.

use vstd::prelude::*;

verus! {

/// A point of wall-clock time, in nanoseconds since the Unix epoch.
#[derive(Clone, Copy, Debug, PartialEq, Eq, Structural)]
pub struct Timestamp {
    /// Nanoseconds since the Unix epoch.
    pub nanos: u128,
}

impl Timestamp {
    /// The whole seconds since the Unix epoch.
    pub open spec fn secs_since_epoch(&self) -> nat {
        self.nanos as nat / 1_000_000_000
    }

    /// The nanoseconds beyond the whole seconds.
    pub open spec fn nanos_since_epoch(&self) -> nat {
        self.nanos as nat % 1_000_000_000
    }

    /// The time that lies `millis` milliseconds after the Unix epoch.
    pub fn from_millis(millis: u64) -> (time: Timestamp)
        ensures
            time.nanos == millis as nat * 1_000_000,
    {
        Timestamp { nanos: (millis as u128) * 1_000_000u128 }
    }

    /// The earliest time that is not before this one and lies strictly after
    /// `floor`. Where `floor` is the last time that can be written there is
    /// none, and the result is `floor` itself.
    pub open spec fn following(&self, floor: Timestamp) -> Timestamp {
        if floor.nanos < self.nanos {
            *self
        } else if floor.nanos < u128::MAX {
            Timestamp { nanos: (floor.nanos + 1) as u128 }
        } else {
            floor
        }
    }

    /// The earliest time that is not before this one and lies strictly after
    /// `floor`; `floor` itself where it is the last time that can be written.
    pub fn after(&self, floor: &Timestamp) -> (time: Timestamp)
        ensures
            time == self.following(*floor),
    {
        if floor.nanos < self.nanos {
            *self
        } else if floor.nanos < u128::MAX {
            Timestamp { nanos: floor.nanos + 1 }
        } else {
            *floor
        }
    }
}

} // verus!
