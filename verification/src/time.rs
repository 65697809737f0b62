//! Points in time.

use vstd::prelude::*;

verus! {

/// Seconds since the Unix epoch of the first second that a point in time can lie in.
pub const FIRST_SECOND: i64 = -8_334_601_228_800;

/// Seconds since the Unix epoch of the last second that a point in time can lie in.
pub const LAST_SECOND: i64 = 8_210_266_876_799;

/// A point in time: the second that it lies in, counted from the Unix epoch, and the
/// nanoseconds since the start of that second. A nanosecond count of a thousand million or more
/// lies in a leap second, which only the last second of a minute can be followed by.
#[derive(Clone, Copy, Debug, PartialEq, Eq, Structural)]
pub struct Timestamp {
    secs: i64,
    nanos: u32,
}

/// Whether there is a point in time with these numbers.
pub open spec fn in_range(secs: i64, nanos: u32) -> bool {
    &&& FIRST_SECOND <= secs <= LAST_SECOND
    &&& nanos < 2_000_000_000
    &&& (nanos >= 1_000_000_000 ==> (secs as int) % 60 == 59)
}

/// The nanoseconds from one point in time to another, leap seconds that lie between their
/// times of day counted.
pub open spec fn nanos_between(
    from_secs: i64,
    from_nanos: u32,
    to_secs: i64,
    to_nanos: u32,
) -> int {
    let from_time = (from_secs as int) % 86_400;
    let to_time = (to_secs as int) % 86_400;
    let leap: int = if to_time > from_time && from_nanos >= 1_000_000_000 {
        1
    } else if to_time < from_time && to_nanos >= 1_000_000_000 {
        -1
    } else {
        0
    };
    (to_secs - from_secs + leap) * 1_000_000_000 + to_nanos - from_nanos
}

/// A span of nanoseconds in whole minutes, rounded towards zero.
pub open spec fn whole_minutes(nanos: int) -> int {
    if nanos >= 0 {
        nanos / 60_000_000_000
    } else {
        -((-nanos) / 60_000_000_000)
    }
}

/// `chrono::TimeDelta::num_minutes` of the difference of two `chrono::DateTime<Utc>`. Trusted:
/// the difference is taken second by second, with a leap second that lies between the two
/// times of day counted, and the minutes are rounded towards zero.
#[verifier::external_body]
fn minutes_between(from_secs: i64, from_nanos: u32, to_secs: i64, to_nanos: u32) -> (r: i64)
    requires
        in_range(from_secs, from_nanos),
        in_range(to_secs, to_nanos),
    ensures
        r == whole_minutes(nanos_between(from_secs, from_nanos, to_secs, to_nanos)),
{
    let from = chrono::DateTime::from_timestamp(from_secs, from_nanos).unwrap();
    let to = chrono::DateTime::from_timestamp(to_secs, to_nanos).unwrap();
    (to - from).num_minutes()
}

/// The RFC 3339 form, in UTC, of the point in time with these numbers.
pub uninterp spec fn rfc3339_text(secs: i64, nanos: u32) -> Seq<char>;

/// `chrono::DateTime<Utc>::to_rfc3339`. Trusted: the text depends on the point in time alone.
#[verifier::external_body]
fn rfc3339(secs: i64, nanos: u32) -> (r: String)
    requires
        in_range(secs, nanos),
    ensures
        r@ == rfc3339_text(secs, nanos),
{
    chrono::DateTime::from_timestamp(secs, nanos).unwrap().to_rfc3339()
}

impl Timestamp {
    #[verifier::type_invariant]
    spec fn valid(self) -> bool {
        in_range(self.secs, self.nanos)
    }

    /// The second that the point in time lies in.
    pub closed spec fn seconds(self) -> i64 {
        self.secs
    }

    /// The nanoseconds since the start of the second.
    pub closed spec fn subsec_nanos(self) -> u32 {
        self.nanos
    }

    /// The point in time with these numbers, where there is one.
    pub fn new(secs: i64, nanos: u32) -> (r: Option<Timestamp>)
        ensures
            r is Some <==> in_range(secs, nanos),
            r matches Some(t) ==> t.seconds() == secs && t.subsec_nanos() == nanos,
    {
        if secs < FIRST_SECOND || secs > LAST_SECOND || nanos >= 2_000_000_000 {
            return None;
        }
        if nanos >= 1_000_000_000 && (secs - FIRST_SECOND) % 60 != 59 {
            return None;
        }
        Some(Timestamp { secs, nanos })
    }

    /// The second that the point in time lies in.
    pub fn timestamp(&self) -> (r: i64)
        ensures
            r == self.seconds(),
            FIRST_SECOND <= r <= LAST_SECOND,
    {
        proof {
            use_type_invariant(self);
        }
        self.secs
    }

    /// The nanoseconds since the start of the second.
    pub fn timestamp_subsec_nanos(&self) -> (r: u32)
        ensures
            r == self.subsec_nanos(),
    {
        self.nanos
    }

    /// The whole minutes that have passed since `earlier`.
    pub fn minutes_since(&self, earlier: &Timestamp) -> (r: i64)
        ensures
            r == whole_minutes(
                nanos_between(
                    earlier.seconds(),
                    earlier.subsec_nanos(),
                    self.seconds(),
                    self.subsec_nanos(),
                ),
            ),
    {
        proof {
            use_type_invariant(self);
            use_type_invariant(earlier);
        }
        minutes_between(earlier.secs, earlier.nanos, self.secs, self.nanos)
    }

    /// The RFC 3339 form of the point in time.
    pub fn to_rfc3339(&self) -> (r: String)
        ensures
            r@ == rfc3339_text(self.seconds(), self.subsec_nanos()),
    {
        proof {
            use_type_invariant(self);
        }
        rfc3339(self.secs, self.nanos)
    }
}

/// Whole minutes are those that have passed in full: forwards no more than the span and less than
/// a minute short of it, and as many backwards for the span turned round.
pub proof fn minutes_have_passed_in_full(nanos: int)
    ensures
        nanos >= 0 ==> whole_minutes(nanos) * 60_000_000_000 <= nanos < (whole_minutes(nanos) + 1)
            * 60_000_000_000,
        whole_minutes(-nanos) == -whole_minutes(nanos),
{
}

/// Without leap seconds, the span between two points in time is the difference of their seconds
/// and nanoseconds. With or without them, it is the same backwards, but for its sign, and there is
/// none from a point in time to itself.
pub proof fn spans_are_differences(a_secs: i64, a_nanos: u32, b_secs: i64, b_nanos: u32)
    ensures
        a_nanos < 1_000_000_000 && b_nanos < 1_000_000_000 ==> nanos_between(
            a_secs,
            a_nanos,
            b_secs,
            b_nanos,
        ) == (b_secs * 1_000_000_000 + b_nanos) - (a_secs * 1_000_000_000 + a_nanos),
        nanos_between(a_secs, a_nanos, b_secs, b_nanos) == -nanos_between(
            b_secs,
            b_nanos,
            a_secs,
            a_nanos,
        ),
        nanos_between(a_secs, a_nanos, a_secs, a_nanos) == 0,
{
}

/// There is a point in time for every nanosecond of every second that can be counted, and for the
/// nanoseconds of a leap second behind the last second of a minute.
pub proof fn points_in_time_are_counted(secs: i64, nanos: u32)
    ensures
        nanos < 1_000_000_000 ==> (in_range(secs, nanos) <==> -8_334_601_228_800 <= secs
            <= 8_210_266_876_799),
        nanos >= 2_000_000_000 ==> !in_range(secs, nanos),
        1_000_000_000 <= nanos < 2_000_000_000 ==> (in_range(secs, nanos) <==> in_range(secs, 0)
            && (secs + 1) % 60 == 0),
{
}

/// A point in time has the numbers that it was made of, and a later one of no leap second is as
/// many whole minutes later as have passed in full.
pub proof fn points_in_time_keep_their_numbers(
    secs: i64,
    nanos: u32,
    made: Option<Timestamp>,
    t: &Timestamp,
    later: &Timestamp,
    minutes: i64,
    seconds: i64,
    subsec_nanos: u32,
)
    requires
        call_ensures(Timestamp::new, (secs, nanos), made),
        call_ensures(Timestamp::timestamp, (t,), seconds),
        call_ensures(Timestamp::timestamp_subsec_nanos, (t,), subsec_nanos),
        call_ensures(Timestamp::minutes_since, (later, t), minutes),
    ensures
        nanos < 1_000_000_000 && -8_334_601_228_800 <= secs <= 8_210_266_876_799 ==> made is Some,
        made matches Some(t) ==> t.seconds() == secs && t.subsec_nanos() == nanos,
        made == Some(*t) ==> seconds == secs && subsec_nanos == nanos,
        t.subsec_nanos() < 1_000_000_000 && later.subsec_nanos() < 1_000_000_000 && (
        later.seconds() > t.seconds() || (later.seconds() == t.seconds() && later.subsec_nanos()
            >= t.subsec_nanos())) ==> {
            let span = (later.seconds() - t.seconds()) * 1_000_000_000 + later.subsec_nanos()
                - t.subsec_nanos();
            minutes * 60_000_000_000 <= span < (minutes + 1) * 60_000_000_000
        },
{
}

} // verus!
