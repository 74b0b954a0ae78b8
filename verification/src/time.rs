//! Points and spans of time.

use vstd::prelude::*;

verus! {

/// An instant with the offset from UTC at which it is shown: seconds and nanoseconds since
/// 1970-01-01T00:00:00Z, and the offset in seconds east of UTC.
///
/// Equality compares the instants and leaves the offsets aside.
#[derive(Debug, Clone, Copy)]
pub struct Timestamp {
    pub secs: i64,
    pub nanos: u32,
    pub offset: i32,
}

/// A day of the proleptic Gregorian calendar, counted from 0001-01-01, which is day 1.
#[derive(Debug, Clone, Copy, PartialEq, Eq, Structural)]
pub struct Date {
    pub days: i32,
}

/// A span of time in seconds and nanoseconds.
#[derive(Debug, Clone, Copy, PartialEq, Eq, Hash, Structural)]
pub struct Duration {
    pub secs: u64,
    pub nanos: u32,
}

/// The unit in which a duration is shown.
#[derive(Debug, Clone, Copy, PartialEq, Eq, Hash, Structural)]
pub enum TimeUnit {
    Seconds,
    Milliseconds,
    Microseconds,
    Nanoseconds,
}

/// A span of time with the unit in which it is shown.
#[derive(Debug, Clone, Copy, PartialEq, Eq, Hash, Structural)]
pub struct DozerDuration {
    pub duration: Duration,
    pub unit: TimeUnit,
}

/// How long a record lives: a span of time that starts at a reference instant.
#[derive(Debug, Clone, Copy)]
pub struct Lifetime {
    pub reference: Timestamp,
    pub duration: Duration,
}

/// Whether two timestamps are the same instant.
pub open spec fn same_instant(a: Timestamp, b: Timestamp) -> bool {
    a.secs == b.secs && a.nanos == b.nanos
}

/// Whether two lifetimes start at the same instant and last equally long.
pub open spec fn same_lifetime(a: Lifetime, b: Lifetime) -> bool {
    same_instant(a.reference, b.reference) && a.duration == b.duration
}

impl PartialEq for Timestamp {
    fn eq(&self, other: &Self) -> (equal: bool) {
        self.secs == other.secs && self.nanos == other.nanos
    }
}

impl vstd::std_specs::cmp::PartialEqSpecImpl for Timestamp {
    open spec fn obeys_eq_spec() -> bool {
        true
    }

    open spec fn eq_spec(&self, other: &Self) -> bool {
        same_instant(*self, *other)
    }
}

impl Eq for Timestamp {

}

impl PartialEq for Lifetime {
    fn eq(&self, other: &Self) -> (equal: bool) {
        self.reference == other.reference && self.duration == other.duration
    }
}

impl vstd::std_specs::cmp::PartialEqSpecImpl for Lifetime {
    open spec fn obeys_eq_spec() -> bool {
        true
    }

    open spec fn eq_spec(&self, other: &Self) -> bool {
        same_lifetime(*self, *other)
    }
}

impl Eq for Lifetime {

}

impl TimeUnit {
    /// The byte that stands for a unit in storage.
    pub open spec fn tag(self) -> u8 {
        match self {
            TimeUnit::Seconds => 0,
            TimeUnit::Milliseconds => 1,
            TimeUnit::Microseconds => 2,
            TimeUnit::Nanoseconds => 3,
        }
    }

    /// The unit that a byte stands for.
    pub open spec fn from_tag(tag: u8) -> TimeUnit {
        if tag == 0 {
            TimeUnit::Seconds
        } else if tag == 1 {
            TimeUnit::Milliseconds
        } else if tag == 2 {
            TimeUnit::Microseconds
        } else {
            TimeUnit::Nanoseconds
        }
    }

    /// Gives the byte that stands for the unit in storage.
    pub fn to_byte(self) -> (byte: u8)
        ensures
            byte == self.tag(),
            TimeUnit::from_tag(byte) == self,
    {
        match self {
            TimeUnit::Seconds => 0,
            TimeUnit::Milliseconds => 1,
            TimeUnit::Microseconds => 2,
            TimeUnit::Nanoseconds => 3,
        }
    }

    /// Gives the unit that a byte stands for.
    pub fn from_byte(byte: u8) -> (unit: TimeUnit)
        ensures
            unit == TimeUnit::from_tag(byte),
    {
        if byte == 0 {
            TimeUnit::Seconds
        } else if byte == 1 {
            TimeUnit::Milliseconds
        } else if byte == 2 {
            TimeUnit::Microseconds
        } else {
            TimeUnit::Nanoseconds
        }
    }
}

} // verus!
