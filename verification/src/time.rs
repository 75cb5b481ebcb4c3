//! Points in time and lengths of time, at nanosecond resolution.
//!
//! The view of every type here is a number of nanoseconds, so contracts
//! elsewhere speak of plain integers.

use vstd::prelude::*;

verus! {

/// Nanoseconds in one second.
pub const NANOS_PER_SEC: u32 = 1_000_000_000;

/// The latest representable point in time, in nanoseconds since the Unix epoch.
pub open spec fn system_time_max() -> int {
    i64::MAX * NANOS_PER_SEC + NANOS_PER_SEC - 1
}

/// The longest representable length of time, in nanoseconds.
pub open spec fn duration_max() -> int {
    u64::MAX * NANOS_PER_SEC + NANOS_PER_SEC - 1
}

/// A length of time: whole seconds and a fraction below one second.
#[derive(Clone, Copy, Debug, PartialEq, Eq)]
pub struct Duration {
    secs: u64,
    nanos: u32,
}

impl View for Duration {
    type V = int;

    /// The length in nanoseconds.
    closed spec fn view(&self) -> int {
        self.secs * NANOS_PER_SEC + self.nanos
    }
}

impl Duration {
    #[verifier::type_invariant]
    spec fn fraction_below_one_second(self) -> bool {
        self.nanos < NANOS_PER_SEC
    }

    /// A length of `secs` whole seconds.
    pub fn from_secs(secs: u64) -> (length: Duration)
        ensures
            length@ == secs * NANOS_PER_SEC,
    {
        Duration { secs, nanos: 0 }
    }

    /// A length of `millis` milliseconds.
    pub fn from_millis(millis: u64) -> (length: Duration)
        ensures
            length@ == millis * 1_000_000,
    {
        let fraction: u64 = millis % 1000;
        Duration { secs: millis / 1000, nanos: (fraction as u32) * 1_000_000 }
    }

    /// A length of `secs` seconds and `nanos` nanoseconds; `None` where `nanos`
    /// is a full second or more.
    pub fn from_parts(secs: u64, nanos: u32) -> (length: Option<Duration>)
        ensures
            nanos < NANOS_PER_SEC ==> length is Some && length->0@ == secs * NANOS_PER_SEC + nanos,
            nanos >= NANOS_PER_SEC ==> length is None,
    {
        if nanos < NANOS_PER_SEC {
            Some(Duration { secs, nanos })
        } else {
            None
        }
    }

    /// The whole seconds of this length.
    pub fn as_secs(&self) -> (secs: u64)
        ensures
            secs == self@ / (NANOS_PER_SEC as int),
    {
        proof {
            use_type_invariant(self);
        }
        self.secs
    }

    /// The part of this length below one second, in nanoseconds.
    pub fn subsec_nanos(&self) -> (nanos: u32)
        ensures
            nanos == self@ % (NANOS_PER_SEC as int),
    {
        proof {
            use_type_invariant(self);
        }
        self.nanos
    }

    /// A third of this length, rounded down to a whole nanosecond.
    pub fn third(&self) -> (part: Duration)
        ensures
            part@ == self@ / 3,
    {
        proof {
            use_type_invariant(self);
        }
        let rest: u64 = (self.secs % 3) * 1_000_000_000 + (self.nanos as u64);
        Duration { secs: self.secs / 3, nanos: (rest / 3) as u32 }
    }

    /// The shorter of two lengths.
    pub fn min(self, other: Duration) -> (shorter: Duration)
        ensures
            shorter@ == if self@ <= other@ {
                self@
            } else {
                other@
            },
    {
        proof {
            use_type_invariant(&self);
            use_type_invariant(&other);
        }
        if self.secs < other.secs || (self.secs == other.secs && self.nanos <= other.nanos) {
            self
        } else {
            other
        }
    }
}

/// A reading of the wall clock, as seconds and a fraction since the Unix epoch.
/// Readings before the epoch have negative seconds and a fraction that counts
/// forward.
#[derive(Clone, Copy, Debug, PartialEq, Eq)]
pub struct SystemTime {
    secs: i64,
    nanos: u32,
}

impl View for SystemTime {
    type V = int;

    /// Nanoseconds since the Unix epoch.
    closed spec fn view(&self) -> int {
        self.secs * NANOS_PER_SEC + self.nanos
    }
}

impl SystemTime {
    #[verifier::type_invariant]
    spec fn fraction_below_one_second(self) -> bool {
        self.nanos < NANOS_PER_SEC
    }

    /// The Unix epoch itself.
    pub fn unix_epoch() -> (epoch: SystemTime)
        ensures
            epoch@ == 0,
    {
        SystemTime { secs: 0, nanos: 0 }
    }

    /// The reading `secs` seconds and `nanos` nanoseconds after the Unix epoch;
    /// `None` where `nanos` is a full second or more.
    pub fn from_parts(secs: i64, nanos: u32) -> (reading: Option<SystemTime>)
        ensures
            nanos < NANOS_PER_SEC ==> reading is Some && reading->0@ == secs * NANOS_PER_SEC
                + nanos,
            nanos >= NANOS_PER_SEC ==> reading is None,
    {
        if nanos < NANOS_PER_SEC {
            Some(SystemTime { secs, nanos })
        } else {
            None
        }
    }

    /// The whole seconds since the Unix epoch, rounded down.
    pub fn secs(&self) -> (secs: i64)
        ensures
            secs == self@ / (NANOS_PER_SEC as int),
    {
        proof {
            use_type_invariant(self);
        }
        self.secs
    }

    /// The part of the reading below one second, in nanoseconds.
    pub fn subsec_nanos(&self) -> (nanos: u32)
        ensures
            nanos == self@ % (NANOS_PER_SEC as int),
    {
        proof {
            use_type_invariant(self);
        }
        self.nanos
    }

    /// The reading `length` later; `None` where that is past the last
    /// representable one.
    pub fn checked_add(&self, length: Duration) -> (later: Option<SystemTime>)
        ensures
            self@ + length@ <= system_time_max() ==> later is Some && later->0@ == self@ + length@,
            self@ + length@ > system_time_max() ==> later is None,
    {
        proof {
            use_type_invariant(self);
            use_type_invariant(&length);
        }
        let fraction: u32 = self.nanos + length.nanos;
        let carry: i128 = if fraction >= NANOS_PER_SEC {
            1
        } else {
            0
        };
        let secs: i128 = (self.secs as i128) + (length.secs as i128) + carry;
        if secs > (i64::MAX as i128) {
            return None;
        }
        let nanos: u32 = if fraction >= NANOS_PER_SEC {
            fraction - NANOS_PER_SEC
        } else {
            fraction
        };
        Some(SystemTime { secs: secs as i64, nanos })
    }

    /// The reading `length` later, where it is representable.
    pub fn plus(&self, length: Duration) -> (later: SystemTime)
        requires
            self@ + length@ <= system_time_max(),
        ensures
            later@ == self@ + length@,
    {
        self.checked_add(length).unwrap()
    }

    /// Whether this reading lies strictly after `other`.
    pub fn is_after(&self, other: SystemTime) -> (after: bool)
        ensures
            after == (self@ > other@),
    {
        proof {
            use_type_invariant(self);
            use_type_invariant(&other);
        }
        self.secs > other.secs || (self.secs == other.secs && self.nanos > other.nanos)
    }
}

/// A reading of a monotonic clock: the time since an origin that is fixed for
/// the life of the process.
#[derive(Clone, Copy, Debug, PartialEq, Eq)]
pub struct Instant {
    since_origin: Duration,
}

impl View for Instant {
    type V = int;

    /// Nanoseconds since the origin.
    closed spec fn view(&self) -> int {
        self.since_origin@
    }
}

impl Instant {
    /// The reading `length` after the origin.
    pub fn after_origin(length: Duration) -> (reading: Instant)
        ensures
            reading@ == length@,
    {
        Instant { since_origin: length }
    }

    /// The reading `length` later; `None` where that is past the last
    /// representable one.
    pub fn checked_add(&self, length: Duration) -> (later: Option<Instant>)
        ensures
            self@ + length@ <= duration_max() ==> later is Some && later->0@ == self@ + length@,
            self@ + length@ > duration_max() ==> later is None,
    {
        let start = self.since_origin;
        proof {
            use_type_invariant(&start);
            use_type_invariant(&length);
        }
        let fraction: u32 = start.nanos + length.nanos;
        let carry: u128 = if fraction >= NANOS_PER_SEC {
            1
        } else {
            0
        };
        let secs: u128 = (start.secs as u128) + (length.secs as u128) + carry;
        if secs > (u64::MAX as u128) {
            return None;
        }
        let nanos: u32 = if fraction >= NANOS_PER_SEC {
            fraction - NANOS_PER_SEC
        } else {
            fraction
        };
        Some(Instant { since_origin: Duration { secs: secs as u64, nanos } })
    }

    /// The reading `length` later, where it is representable.
    pub fn plus(&self, length: Duration) -> (later: Instant)
        requires
            self@ + length@ <= duration_max(),
        ensures
            later@ == self@ + length@,
    {
        self.checked_add(length).unwrap()
    }

    /// Whether this reading lies strictly after `other`.
    pub fn is_after(&self, other: Instant) -> (after: bool)
        ensures
            after == (self@ > other@),
    {
        let from = other.since_origin;
        let to = self.since_origin;
        proof {
            use_type_invariant(&from);
            use_type_invariant(&to);
        }
        to.secs > from.secs || (to.secs == from.secs && to.nanos > from.nanos)
    }

    /// The time from `earlier` to this reading; zero where `earlier` is not
    /// earlier.
    pub fn saturating_duration_since(&self, earlier: Instant) -> (length: Duration)
        ensures
            length@ == if self@ > earlier@ {
                self@ - earlier@
            } else {
                0
            },
    {
        let from = earlier.since_origin;
        let to = self.since_origin;
        proof {
            use_type_invariant(&from);
            use_type_invariant(&to);
        }
        if to.secs < from.secs || (to.secs == from.secs && to.nanos <= from.nanos) {
            Duration { secs: 0, nanos: 0 }
        } else if to.nanos >= from.nanos {
            Duration { secs: to.secs - from.secs, nanos: to.nanos - from.nanos }
        } else {
            Duration {
                secs: to.secs - from.secs - 1,
                nanos: NANOS_PER_SEC - from.nanos + to.nanos,
            }
        }
    }
}

} // verus!
