//! What lengths and points of time promise, in terms of the seconds and the
//! nanoseconds that go in and come out.

use vstd::prelude::*;

use crate::time::{Duration, Instant, SystemTime};

verus! {

/// The seconds and the fraction of a length make up the length, and the fraction
/// is below one second.
pub proof fn law_length_is_its_parts(length: Duration, secs: u64, nanos: u32)
    requires
        call_ensures(Duration::as_secs, (&length,), secs),
        call_ensures(Duration::subsec_nanos, (&length,), nanos),
    ensures
        length@ == secs * 1_000_000_000 + nanos,
        nanos < 1_000_000_000,
{
}

/// A length made of seconds and a fraction gives them back. It can be made
/// exactly if the fraction is below one second.
pub proof fn law_length_gives_back_its_parts(
    secs: u64,
    nanos: u32,
    length: Option<Duration>,
    secs_back: u64,
    nanos_back: u32,
)
    requires
        call_ensures(Duration::from_parts, (secs, nanos), length),
        length matches Some(length) ==> call_ensures(Duration::as_secs, (&length,), secs_back)
            && call_ensures(Duration::subsec_nanos, (&length,), nanos_back),
    ensures
        length is Some <==> nanos < 1_000_000_000,
        length is Some ==> secs_back == secs && nanos_back == nanos,
        length matches Some(length) ==> length@ == secs * 1_000_000_000 + nanos,
{
}

/// A length of whole seconds, and one of milliseconds, in nanoseconds.
pub proof fn law_lengths_in_nanoseconds(n: u64, seconds: Duration, millis: Duration)
    requires
        call_ensures(Duration::from_secs, (n,), seconds),
        call_ensures(Duration::from_millis, (n,), millis),
    ensures
        seconds@ == n * 1_000_000_000,
        millis@ == n * 1_000_000,
        seconds@ == 1000 * millis@,
{
}

/// Three thirds of a length fall short of it by less than three nanoseconds.
pub proof fn law_three_thirds(length: Duration, third: Duration)
    requires
        call_ensures(Duration::third, (&length,), third),
    ensures
        3 * third@ <= length@ < 3 * third@ + 3,
{
}

/// The shorter of two lengths is one of them, and no longer than either.
pub proof fn law_shorter_length(a: Duration, b: Duration, shorter: Duration)
    requires
        call_ensures(Duration::min, (a, b), shorter),
    ensures
        shorter@ == a@ || shorter@ == b@,
        shorter@ <= a@,
        shorter@ <= b@,
{
}

/// The seconds and the fraction of a clock reading make it up, counted from the
/// Unix epoch, before which the seconds are negative.
pub proof fn law_reading_is_its_parts(
    reading: SystemTime,
    secs: i64,
    nanos: u32,
    epoch: SystemTime,
)
    requires
        call_ensures(SystemTime::secs, (&reading,), secs),
        call_ensures(SystemTime::subsec_nanos, (&reading,), nanos),
        call_ensures(SystemTime::unix_epoch, (), epoch),
    ensures
        reading@ == secs * 1_000_000_000 + nanos,
        nanos < 1_000_000_000,
        epoch@ == 0,
{
}

/// A clock reading made of seconds and a fraction gives them back. It can be made
/// exactly if the fraction is below one second.
pub proof fn law_reading_gives_back_its_parts(
    secs: i64,
    nanos: u32,
    reading: Option<SystemTime>,
    secs_back: i64,
    nanos_back: u32,
)
    requires
        call_ensures(SystemTime::from_parts, (secs, nanos), reading),
        reading matches Some(reading) ==> call_ensures(SystemTime::secs, (&reading,), secs_back)
            && call_ensures(SystemTime::subsec_nanos, (&reading,), nanos_back),
    ensures
        reading is Some <==> nanos < 1_000_000_000,
        reading is Some ==> secs_back == secs && nanos_back == nanos,
        reading matches Some(reading) ==> reading@ == secs * 1_000_000_000 + nanos,
{
}

/// A reading moved on by a length is later by exactly that. There is one exactly
/// if its seconds are within 64 bits, and then it can be had without a test too.
pub proof fn law_reading_moved_on(
    reading: SystemTime,
    length: Duration,
    later: Option<SystemTime>,
    plus: SystemTime,
)
    requires
        call_ensures(SystemTime::checked_add, (&reading, length), later),
        later is Some ==> call_ensures(SystemTime::plus, (&reading, length), plus),
    ensures
        later is Some <==> reading@ + length@ < (i64::MAX + 1) * 1_000_000_000,
        later matches Some(later) ==> later@ == reading@ + length@ && plus@ == later@,
        later is Some ==> call_requires(SystemTime::plus, (&reading, length)),
{
}

/// Of two readings, one is after the other exactly if it is by at least a
/// nanosecond.
pub proof fn law_readings_in_order(a: SystemTime, b: SystemTime, after: bool, before: bool)
    requires
        call_ensures(SystemTime::is_after, (&a, b), after),
        call_ensures(SystemTime::is_after, (&b, a), before),
    ensures
        after <==> a@ - b@ >= 1,
        before <==> b@ - a@ >= 1,
        !(after && before),
        !after && !before <==> a@ == b@,
{
}

/// A reading of the monotonic clock moved on by a length is after it, unless the
/// length is zero, and the time between the two is that length; the other way
/// round it is zero.
pub proof fn law_instant_moved_on(
    since: Duration,
    instant: Instant,
    length: Duration,
    later: Option<Instant>,
    plus: Instant,
    after: bool,
    between: Duration,
    back: Duration,
)
    requires
        call_ensures(Instant::after_origin, (since,), instant),
        call_ensures(Instant::checked_add, (&instant, length), later),
        later matches Some(later) ==> call_ensures(Instant::plus, (&instant, length), plus)
            && call_ensures(Instant::is_after, (&later, instant), after) && call_ensures(
            Instant::saturating_duration_since,
            (&later, instant),
            between,
        ) && call_ensures(Instant::saturating_duration_since, (&instant, later), back),
        since@ >= 0,
        length@ >= 0,
    ensures
        instant@ == since@,
        later is Some <==> since@ + length@ < (u64::MAX + 1) * 1_000_000_000,
        later matches Some(later) ==> {
            &&& later@ == since@ + length@
            &&& plus@ == later@
            &&& call_requires(Instant::plus, (&instant, length))
            &&& after <==> length@ > 0
            &&& between@ == length@
            &&& back@ == 0
        },
{
}

/// Any two readings of the monotonic clock are in order, and the time from the
/// earlier to the later one makes up the difference.
pub proof fn law_instants_in_order(a: Instant, b: Instant, after: bool, between: Duration)
    requires
        call_ensures(Instant::is_after, (&a, b), after),
        call_ensures(Instant::saturating_duration_since, (&a, b), between),
    ensures
        after <==> a@ - b@ >= 1,
        after ==> b@ + between@ == a@,
        !after ==> between@ == 0,
{
}

} // verus!
