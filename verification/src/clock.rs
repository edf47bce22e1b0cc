//! Points in time and the whole seconds that lie between two of them.

use vstd::prelude::*;

verus! {

/// Nanoseconds in one second.
pub const NANOS_PER_SECOND: i128 = 1_000_000_000;

/// Seconds in one day. A zone's offset from UTC is less, east or west.
pub const SECONDS_PER_DAY: i64 = 86_400;

/// A point in time: whole seconds since 1970-01-01T00:00:00 UTC, leap
/// seconds not counted, and the nanoseconds that have passed since that
/// second began. A reading taken in a leap second belongs to the second
/// before it and has a full second or more of nanoseconds.
#[derive(Clone, Copy, Debug, PartialEq, Eq, Structural)]
pub struct Timestamp {
    pub secs: i64,
    pub nanos: u32,
}

/// Integer division that rounds toward zero.
pub open spec fn div_toward_zero(n: int, d: int) -> int
    recommends
        d > 0,
{
    if n >= 0 {
        n / d
    } else {
        -((-n) / d)
    }
}

impl Timestamp {
    /// The reading was taken in a leap second.
    pub open spec fn in_leap_second(self) -> bool {
        self.nanos >= NANOS_PER_SECOND
    }

    /// The second of the UTC day in which the point in time lies, from 0
    /// to 86_399, a leap second counted to the second before it.
    pub open spec fn second_of_day(self) -> int {
        self.secs as int % SECONDS_PER_DAY as int
    }
}

/// The leap second to add to the seconds from `origin` to `t`. A reading
/// taken in a leap second has the seconds of the second before it; the leap
/// second itself is counted by the second of the day, as chrono's
/// subtraction of two `DateTime`s counts it: one more where `origin` was
/// read in a leap second and `t` lies at a later second of the day, one
/// less where `t` was read in a leap second and lies at an earlier second of
/// the day than `origin`. A leap second in which neither was read is not
/// counted.
pub open spec fn leap_second_between(origin: Timestamp, t: Timestamp) -> int {
    if t.second_of_day() > origin.second_of_day() && origin.in_leap_second() {
        1
    } else if t.second_of_day() < origin.second_of_day() && t.in_leap_second() {
        -1
    } else {
        0
    }
}

/// The time from `origin` to `t` in nanoseconds: the seconds between them
/// with the leap second of [`leap_second_between`], and the difference of
/// the nanoseconds.
pub open spec fn elapsed_nanos(origin: Timestamp, t: Timestamp) -> int {
    (t.secs - origin.secs + leap_second_between(origin, t)) * NANOS_PER_SECOND + (t.nanos
        - origin.nanos)
}

/// Whole seconds from `origin` to `t`: negative where `t` lies before
/// `origin`, the part of a second dropped.
pub open spec fn elapsed_seconds(origin: Timestamp, t: Timestamp) -> int {
    div_toward_zero(elapsed_nanos(origin, t), NANOS_PER_SECOND as int)
}

/// Computes [`Timestamp::second_of_day`].
pub fn second_of_day_of(t: &Timestamp) -> (r: i64)
    ensures
        r == t.second_of_day(),
        0 <= r < SECONDS_PER_DAY,
{
    let m: i64 = t.secs % SECONDS_PER_DAY;
    if m < 0 {
        m + SECONDS_PER_DAY
    } else {
        m
    }
}

/// Computes [`elapsed_seconds`].
pub fn seconds_between(origin: &Timestamp, t: &Timestamp) -> (r: i128)
    ensures
        r == elapsed_seconds(*origin, *t),
{
    let from = second_of_day_of(origin);
    let to = second_of_day_of(t);
    let leap: i128 = if to > from && origin.nanos as i128 >= NANOS_PER_SECOND {
        1
    } else if to < from && t.nanos as i128 >= NANOS_PER_SECOND {
        -1
    } else {
        0
    };
    let secs: i128 = t.secs as i128 - origin.secs as i128 + leap;
    let diff: i128 = secs * NANOS_PER_SECOND + (t.nanos as i128 - origin.nanos as i128);
    if diff >= 0 {
        diff / NANOS_PER_SECOND
    } else {
        -((-diff) / NANOS_PER_SECOND)
    }
}

/// A date and time of day with no zone, as a calendar and a clock on the
/// wall show it: the whole seconds from 1970-01-01T00:00:00 on that calendar
/// and clock, and the nanoseconds since that second began.
#[derive(Clone, Copy, Debug, PartialEq, Eq, Structural)]
pub struct CivilTime {
    pub secs: i64,
    pub nanos: u32,
}

impl CivilTime {
    /// `t` is a place of this date and time in some zone: the point in time
    /// at which the zone's calendar and clock show it. The zone's offset is
    /// whole seconds, so the two agree in the nanoseconds, and it is less
    /// than a day, so the seconds lie less than a day apart.
    pub open spec fn placed_at(self, t: Timestamp) -> bool {
        &&& t.nanos == self.nanos
        &&& self.secs - SECONDS_PER_DAY < t.secs < self.secs + SECONDS_PER_DAY
    }
}

/// What chrono's `NaiveDateTime::from_str` makes of `text`: the date and
/// time that it reads in the format `%Y-%m-%dT%H:%M:%S%.f`, as in
/// `2024-01-01T00:10:00`, or `None` where it refuses the text.
pub uninterp spec fn naive_datetime(text: Seq<char>) -> Option<CivilTime>;

/// Calls chrono's `NaiveDateTime::from_str` on `text` and reads the result
/// with `and_utc`, `DateTime::timestamp` and
/// `DateTime::timestamp_subsec_nanos`. Not proved, but taken from chrono:
/// what comes out depends on the text alone.
#[verifier::external_body]
fn parse_naive_datetime(text: &[char]) -> (r: Option<CivilTime>)
    ensures
        r == naive_datetime(text@),
{
    let owned: String = text.iter().collect();
    let naive = owned.parse::<chrono::NaiveDateTime>().ok()?.and_utc();
    Some(CivilTime { secs: naive.timestamp(), nanos: naive.timestamp_subsec_nanos() })
}

/// Calls chrono's `NaiveDateTime::and_local_timezone` with `Local`, then
/// `single`, on the date and time that `DateTime::from_timestamp` and
/// `naive_utc` make of `civil`, and reads the point in time with
/// `DateTime::timestamp` and `DateTime::timestamp_subsec_nanos`. Whether the
/// date and time has a place, and which, is up to the zone this machine is
/// set to. Not proved, but taken from chrono: the place is the date and
/// time less the zone's offset, whole seconds that stay below a day.
#[verifier::external_body]
fn resolve_in_local_zone(civil: CivilTime) -> (r: Option<Timestamp>)
    ensures
        r matches Some(t) ==> civil.placed_at(t),
{
    let naive = chrono::DateTime::from_timestamp(civil.secs, civil.nanos)?.naive_utc();
    let local = naive.and_local_timezone(chrono::Local).single()?;
    Some(Timestamp { secs: local.timestamp(), nanos: local.timestamp_subsec_nanos() })
}

/// Reads `text` as a date and time and gives its place in the local zone.
/// Text that is no date and time has none; a date and time has one where
/// the zone knows it once. See [`CivilTime::placed_at`] for what a place is.
pub fn local_timestamp(text: &[char]) -> (r: Option<Timestamp>)
    ensures
        !naive_datetime_parses(text@) ==> r is None,
        r matches Some(t) ==> naive_datetime(text@) matches Some(civil) && civil.placed_at(t),
{
    match parse_naive_datetime(text) {
        Some(civil) => resolve_in_local_zone(civil),
        None => None,
    }
}

/// Chrono accepts `text` as a date and time.
pub open spec fn naive_datetime_parses(text: Seq<char>) -> bool {
    naive_datetime(text) is Some
}

} // verus!
