//! Points in time, as seconds and nanoseconds relative to the UNIX epoch.

use vstd::prelude::*;

verus! {

/// Number of nanoseconds in a second.
pub const NANOS_PER_SEC: i32 = 1_000_000_000;

/// A point in time: `seconds` whole seconds after the UNIX epoch (negative
/// before it) plus `nanos` nanoseconds. Also the value of timestamp
/// attributes, after protobuf's well-known `Timestamp`.
#[derive(Debug, PartialEq, Eq, Structural, Copy, Clone)]
pub struct Timestamp {
    pub seconds: i64,
    pub nanos: i32,
}

impl Timestamp {
    /// The nanosecond part is a fraction of a second.
    pub open spec fn wf(self) -> bool {
        0 <= self.nanos < NANOS_PER_SEC
    }

    /// `self` is the same point in time as `other` or a later one.
    pub open spec fn at_or_after(self, other: Timestamp) -> bool {
        ||| self.seconds > other.seconds
        ||| (self.seconds == other.seconds && self.nanos >= other.nanos)
    }

    /// `self` moved forward by `secs` seconds, held at the largest
    /// representable second where that would leave the range of `i64`.
    pub open spec fn plus_seconds_spec(self, secs: i64) -> Timestamp {
        if self.seconds + secs > i64::MAX {
            Timestamp { seconds: i64::MAX, nanos: self.nanos }
        } else {
            Timestamp { seconds: (self.seconds + secs) as i64, nanos: self.nanos }
        }
    }

    /// The timestamp with the given seconds and nanoseconds.
    pub fn new(seconds: i64, nanos: i32) -> (t: Timestamp)
        ensures
            t.seconds == seconds,
            t.nanos == nanos,
    {
        Timestamp { seconds, nanos }
    }

    /// Whether `self` is the same point in time as `other` or a later one.
    pub fn is_at_or_after(&self, other: &Timestamp) -> (r: bool)
        ensures
            r == self.at_or_after(*other),
    {
        self.seconds > other.seconds || (self.seconds == other.seconds && self.nanos >= other.nanos)
    }

    /// `self` moved forward by a non-negative number of seconds; the
    /// seconds are held at `i64::MAX` where the sum would overflow.
    pub fn plus_seconds(&self, secs: i64) -> (t: Timestamp)
        requires
            secs >= 0,
        ensures
            t == self.plus_seconds_spec(secs),
            self.wf() ==> t.wf(),
    {
        if self.seconds > i64::MAX - secs {
            Timestamp { seconds: i64::MAX, nanos: self.nanos }
        } else {
            Timestamp { seconds: self.seconds + secs, nanos: self.nanos }
        }
    }

    /// The current time of the system clock. Nothing but well-formedness is
    /// promised of the value: it is whatever the clock reads.
    pub fn now() -> (t: Timestamp)
        ensures
            t.wf(),
    {
        let (after_epoch, secs, nanos) = read_system_clock();
        from_clock_reading(after_epoch, secs, nanos)
    }
}

/// The timestamp for a clock reading of `secs` seconds and `nanos`
/// nanoseconds after the epoch (or before it where `after_epoch` is false),
/// with the seconds held within the range of `i64`.
pub open spec fn clock_reading_spec(after_epoch: bool, secs: u64, nanos: u32) -> Timestamp {
    if after_epoch {
        if secs > i64::MAX as u64 {
            Timestamp { seconds: i64::MAX, nanos: nanos as i32 }
        } else {
            Timestamp { seconds: secs as i64, nanos: nanos as i32 }
        }
    } else if secs >= i64::MAX as u64 {
        Timestamp { seconds: i64::MIN, nanos: 0 }
    } else if nanos == 0 {
        Timestamp { seconds: -(secs as int) as i64, nanos: 0 }
    } else {
        Timestamp { seconds: (-(secs as int) - 1) as i64, nanos: (NANOS_PER_SEC - nanos) as i32 }
    }
}

/// Converts a reading of the system clock (a duration since or before the
/// UNIX epoch) to a timestamp.
pub fn from_clock_reading(after_epoch: bool, secs: u64, nanos: u32) -> (t: Timestamp)
    requires
        nanos < 1_000_000_000,
    ensures
        t == clock_reading_spec(after_epoch, secs, nanos),
        t.wf(),
{
    if after_epoch {
        if secs > i64::MAX as u64 {
            Timestamp { seconds: i64::MAX, nanos: nanos as i32 }
        } else {
            Timestamp { seconds: secs as i64, nanos: nanos as i32 }
        }
    } else if secs >= i64::MAX as u64 {
        Timestamp { seconds: i64::MIN, nanos: 0 }
    } else {
        let s: i64 = secs as i64;
        if nanos == 0 {
            Timestamp { seconds: -s, nanos: 0 }
        } else {
            Timestamp { seconds: -s - 1, nanos: NANOS_PER_SEC - (nanos as i32) }
        }
    }
}

/// Reads `std::time::SystemTime::now()` and its distance to
/// `std::time::UNIX_EPOCH` (`duration_since`; its error carries the
/// distance of a time before the epoch). Returns whether the time is after
/// the epoch, and the distance as whole seconds and nanoseconds. The
/// contract claims only that the nanoseconds are below one second, as
/// `Duration::subsec_nanos` documents; the reading itself depends on the
/// clock.
#[verifier::external_body]
fn read_system_clock() -> (r: (bool, u64, u32))
    ensures
        r.2 < 1_000_000_000,
{
    match std::time::SystemTime::now().duration_since(std::time::UNIX_EPOCH) {
        Ok(d) => (true, d.as_secs(), d.subsec_nanos()),
        Err(e) => (false, e.duration().as_secs(), e.duration().subsec_nanos()),
    }
}

} // verus!
