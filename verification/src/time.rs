//! Points in time, with calendar parsing and formatting left to `chrono`.
use vstd::prelude::*;

verus! {

/// The number of nanoseconds in a second.
pub const NANOS_PER_SECOND: i128 = 1_000_000_000;

/// The first second that calendar dates reach.
pub const MIN_SECONDS: i64 = -8_334_601_228_800;

/// The last second that calendar dates reach.
pub const MAX_SECONDS: i64 = 8_210_266_876_799;

/// Whether seconds since the epoch and nanoseconds name a point in time. A leap second is written
/// as the last second of a minute with a second or more of nanoseconds.
pub open spec fn is_instant(seconds: int, nanos: int) -> bool {
    &&& MIN_SECONDS <= seconds <= MAX_SECONDS
    &&& 0 <= nanos < 2_000_000_000
    &&& nanos >= 1_000_000_000 ==> seconds % 60 == 59
}

/// A point in time in UTC.
#[derive(Clone, Copy, Debug, PartialEq, Eq, PartialOrd, Ord)]
pub struct Instant {
    seconds: i64,
    nanos: u32,
}

impl View for Instant {
    type V = (int, int);

    closed spec fn view(&self) -> (int, int) {
        (self.seconds as int, self.nanos as int)
    }
}

/// Whether `a` is later than `b`.
pub open spec fn is_after(a: (int, int), b: (int, int)) -> bool {
    a.0 > b.0 || (a.0 == b.0 && a.1 > b.1)
}

/// The second of the day of a point in time.
pub open spec fn second_of_day(a: (int, int)) -> int {
    a.0 % 86_400
}

/// The nanoseconds from `b` to `a`. A leap second that lies between their times of day is counted.
pub open spec fn nanos_between(a: (int, int), b: (int, int)) -> int {
    let leap: int = if second_of_day(a) > second_of_day(b) && b.1 >= 1_000_000_000 {
        1
    } else if second_of_day(a) < second_of_day(b) && a.1 >= 1_000_000_000 {
        -1
    } else {
        0
    };
    (a.0 - b.0 + leap) * 1_000_000_000 + (a.1 - b.1)
}

/// The point in time `seconds` after `a`, for a number of seconds that is not negative. Moving on
/// from a leap second leaves the leap second.
pub open spec fn plus_seconds(a: (int, int), seconds: int) -> (int, int) {
    (
        a.0 + seconds,
        if seconds > 0 && a.1 >= 1_000_000_000 {
            a.1 - 1_000_000_000
        } else {
            a.1
        },
    )
}

impl Instant {
    #[verifier::type_invariant]
    spec fn inv(self) -> bool {
        is_instant(self.seconds as int, self.nanos as int)
    }

    /// The point in time with the given seconds since the epoch and nanoseconds.
    pub fn new(seconds: i64, nanos: u32) -> (result: Option<Self>)
        ensures
            match result {
                Some(instant) => is_instant(seconds as int, nanos as int) && instant@ == (
                    seconds as int,
                    nanos as int,
                ),
                None => !is_instant(seconds as int, nanos as int),
            },
    {
        if seconds < MIN_SECONDS || seconds > MAX_SECONDS || nanos >= 2_000_000_000 {
            return None;
        }
        if nanos >= 1_000_000_000 {
            let shifted: i64 = seconds - MIN_SECONDS;
            assert(MIN_SECONDS % 60 == 0);
            if shifted % 60 != 59 {
                return None;
            }
        }
        Some(Instant { seconds, nanos })
    }

    /// The whole seconds since the epoch.
    pub fn timestamp(self) -> (seconds: i64)
        ensures
            seconds == self@.0,
            is_instant(self@.0, self@.1),
    {
        proof {
            use_type_invariant(self);
        }
        self.seconds
    }

    /// The nanoseconds within the second.
    pub fn subsec_nanos(self) -> (nanos: u32)
        ensures
            nanos == self@.1,
            is_instant(self@.0, self@.1),
    {
        proof {
            use_type_invariant(self);
        }
        self.nanos
    }

    /// Whether this point in time is later than another.
    pub fn is_later_than(self, other: Instant) -> (result: bool)
        ensures
            result == is_after(self@, other@),
    {
        self.seconds > other.seconds || (self.seconds == other.seconds && self.nanos > other.nanos)
    }

    fn day_second(self) -> (second: i64)
        ensures
            second == second_of_day(self@),
    {
        proof {
            use_type_invariant(self);
        }
        let shifted: i64 = self.seconds - MIN_SECONDS;
        assert(MIN_SECONDS % 86_400 == 0);
        shifted % 86_400
    }

    /// The nanoseconds from another point in time to this one.
    pub fn nanos_since(self, other: Instant) -> (nanos: i128)
        ensures
            nanos == nanos_between(self@, other@),
    {
        proof {
            use_type_invariant(self);
            use_type_invariant(other);
        }
        let mut seconds: i128 = self.seconds as i128 - other.seconds as i128;
        if self.day_second() > other.day_second() && other.nanos >= 1_000_000_000 {
            seconds = seconds + 1;
        } else if self.day_second() < other.day_second() && self.nanos >= 1_000_000_000 {
            seconds = seconds - 1;
        }
        seconds * NANOS_PER_SECOND + (self.nanos as i128 - other.nanos as i128)
    }

    /// Whether this point in time is later than another that is moved on by `seconds`.
    pub fn is_later_than_plus(self, other: Instant, seconds: i64) -> (result: bool)
        requires
            seconds >= 0,
        ensures
            result == is_after(self@, plus_seconds(other@, seconds as int)),
    {
        let moved: i128 = other.seconds as i128 + seconds as i128;
        let nanos: u32 = if seconds > 0 && other.nanos >= 1_000_000_000 {
            other.nanos - 1_000_000_000
        } else {
            other.nanos
        };
        self.seconds as i128 > moved || (self.seconds as i128 == moved && self.nanos > nanos)
    }

    /// Calls `Utc::now`. What it gives depends on the clock of the machine.
    #[verifier::external_body]
    pub(crate) fn now() -> (instant: Self)
    {
        let time = chrono::Utc::now();
        Instant { seconds: time.timestamp(), nanos: time.timestamp_subsec_nanos() }
    }
}

/// The point in time, read as UTC, that `text` writes in a `chrono` format without a time zone.
pub uninterp spec fn naive_time(text: Seq<char>, format: Seq<char>) -> Option<(int, int)>;

/// Calls `NaiveDateTime::parse_from_str` and reads the result as UTC.
#[verifier::external_body]
pub(crate) fn parse_naive_time(text: &str, format: &str) -> (result: Option<Instant>)
    ensures
        match result {
            Some(instant) => naive_time(text@, format@) == Some(instant@),
            None => naive_time(text@, format@) is None,
        },
{
    let time = chrono::NaiveDateTime::parse_from_str(text, format).ok()?.and_utc();
    Some(Instant { seconds: time.timestamp(), nanos: time.timestamp_subsec_nanos() })
}

/// The point in time that `text` writes in the form of RFC 2822.
pub uninterp spec fn rfc2822_time(text: Seq<char>) -> Option<(int, int)>;

/// Calls `DateTime::parse_from_rfc2822`.
#[verifier::external_body]
pub(crate) fn parse_rfc2822_time(text: &str) -> (result: Option<Instant>)
    ensures
        match result {
            Some(instant) => rfc2822_time(text@) == Some(instant@),
            None => rfc2822_time(text@) is None,
        },
{
    let time = chrono::DateTime::parse_from_rfc2822(text).ok()?;
    Some(Instant { seconds: time.timestamp(), nanos: time.timestamp_subsec_nanos() })
}

/// A point in time written in a `chrono` format.
pub uninterp spec fn formatted_time(time: (int, int), format: Seq<char>) -> Seq<char>;

/// The format of dates in HTTP header fields.
pub open spec fn http_date_format() -> Seq<char> {
    "%a, %d %b %Y %H:%M:%S GMT"@
}

/// Calls `DateTime::from_timestamp`, which accepts every valid point in time, and `format`.
#[verifier::external_body]
pub(crate) fn format_time(time: Instant, format: &str) -> (text: String)
    requires
        format@ == http_date_format(),
    ensures
        text@ == formatted_time(time@, format@),
{
    chrono::DateTime::<chrono::Utc>::from_timestamp(time.seconds, time.nanos)
        .expect("a valid point in time")
        .format(format)
        .to_string()
}

/// A point in time in the form of RFC 3339, with milliseconds and `Z` for UTC.
pub uninterp spec fn rfc3339_text(time: (int, int)) -> Seq<char>;

/// Calls `DateTime::from_timestamp`, which accepts every valid point in time, and
/// `to_rfc3339_opts` with milliseconds and `Z`.
#[verifier::external_body]
pub(crate) fn format_rfc3339(time: Instant) -> (text: String)
    ensures
        text@ == rfc3339_text(time@),
{
    chrono::DateTime::<chrono::Utc>::from_timestamp(time.seconds, time.nanos)
        .expect("a valid point in time")
        .to_rfc3339_opts(chrono::SecondsFormat::Millis, true)
}

} // verus!
