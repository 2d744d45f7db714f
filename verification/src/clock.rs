//! Broken-down calendar time, and its formatting by strftime patterns.

use vstd::prelude::*;

verus! {

/// A calendar time broken down into its parts, together with the zone it was taken in.
#[derive(Clone, Copy, Debug, PartialEq, Eq, Hash, Structural)]
pub struct Timestamp {
    /// Seconds after the minute, from 0 to 60.
    pub second: i32,
    /// Minutes after the hour, from 0 to 59.
    pub minute: i32,
    /// Hours after midnight, from 0 to 23.
    pub hour: i32,
    /// Day of the month, from 1 to 31.
    pub day: i32,
    /// Months since January, from 0 to 11.
    pub month: i32,
    /// Years since 1900.
    pub year: i32,
    /// Days since Sunday, from 0 to 6.
    pub weekday: i32,
    /// Days since the first of January, from 0 to 365.
    pub yearday: i32,
    /// Positive while daylight saving time is in effect, zero while it is not, negative where
    /// that is not known.
    pub dst: i32,
    /// Seconds east of UTC.
    pub utc_offset: i32,
    /// Nanoseconds after the second, below 1 000 000 000.
    pub nanosecond: i32,
}

/// The largest year, counted from 1900, that can be formatted.
pub const MAX_YEAR: i32 = 2_000_000_000;

impl Timestamp {
    /// Whether every part lies in its range, so that the time can be formatted.
    pub open spec fn is_valid(&self) -> bool {
        &&& 0 <= self.second <= 60
        &&& 0 <= self.minute <= 59
        &&& 0 <= self.hour <= 23
        &&& 1 <= self.day <= 31
        &&& 0 <= self.month <= 11
        &&& -MAX_YEAR <= self.year <= MAX_YEAR
        &&& 0 <= self.weekday <= 6
        &&& 0 <= self.yearday <= 365
        &&& -86_400 < self.utc_offset < 86_400
        &&& 0 <= self.nanosecond < 1_000_000_000
    }

    /// Tests whether every part lies in its range.
    pub fn check(&self) -> (valid: bool)
        ensures
            valid == self.is_valid(),
    {
        let clock = 0 <= self.second && self.second <= 60 && 0 <= self.minute && self.minute <= 59
            && 0 <= self.hour && self.hour <= 23 && 0 <= self.nanosecond && self.nanosecond
            < 1_000_000_000;
        let date = 1 <= self.day && self.day <= 31 && 0 <= self.month && self.month <= 11
            && -MAX_YEAR <= self.year && self.year <= MAX_YEAR;
        let days = 0 <= self.weekday && self.weekday <= 6 && 0 <= self.yearday && self.yearday
            <= 365;
        let zone = -86_400 < self.utc_offset && self.utc_offset < 86_400;
        clock && date && days && zone
    }
}

/// Whether the pattern asks for the seconds since the epoch (`%s`), the one conversion for
/// which a time outside UTC is interpreted in the zone of the running process.
pub open spec fn asks_epoch_seconds(pattern: Seq<char>) -> bool {
    exists|i: int| 0 <= i && i + 1 < pattern.len() && #[trigger] pattern[i] == '%' && pattern[i + 1] == 's'
}

/// Whether formatting `at` by `pattern` depends on nothing but the two.
pub open spec fn zone_free(pattern: Seq<char>, at: Timestamp) -> bool {
    at.utc_offset == 0 || !asks_epoch_seconds(pattern)
}

/// The text that formatting a valid time by a strftime pattern gives in a process that runs
/// in UTC; `None` where the pattern is rejected.
pub uninterp spec fn strftime_text(pattern: Seq<char>, at: Timestamp) -> Option<Seq<char>>;

/// Calls `time::strftime` on the time with the same parts.
///
/// Trusted: for a valid time the call returns and accepts or rejects the pattern as
/// `strftime_text` says, since that depends on the pattern alone. The text is the one that
/// `strftime_text` names wherever it does not depend on the zone of the process: every
/// conversion but `%s` reads the parts of the time only, and `%s` does so for a time in UTC.
#[verifier::external_body]
pub(crate) fn strftime(pattern: &str, at: &Timestamp) -> (r: Result<String, time::ParseError>)
    requires
        at.is_valid(),
    ensures
        r is Ok <==> strftime_text(pattern@, *at) is Some,
        r matches Ok(text) ==> zone_free(pattern@, *at) ==> strftime_text(pattern@, *at) == Some(
            text@,
        ),
{
    let tm = time::Tm {
        tm_sec: at.second,
        tm_min: at.minute,
        tm_hour: at.hour,
        tm_mday: at.day,
        tm_mon: at.month,
        tm_year: at.year,
        tm_wday: at.weekday,
        tm_yday: at.yearday,
        tm_isdst: at.dst,
        tm_utcoff: at.utc_offset,
        tm_nsec: at.nanosecond,
    };
    time::strftime(pattern, &tm)
}

/// Calls `time::now` and copies the parts of what it returns.
///
/// Trusted: nothing is claimed of the time read.
#[verifier::external_body]
pub(crate) fn local_now() -> Timestamp {
    let tm = time::now();
    Timestamp {
        second: tm.tm_sec,
        minute: tm.tm_min,
        hour: tm.tm_hour,
        day: tm.tm_mday,
        month: tm.tm_mon,
        year: tm.tm_year,
        weekday: tm.tm_wday,
        yearday: tm.tm_yday,
        dst: tm.tm_isdst,
        utc_offset: tm.tm_utcoff,
        nanosecond: tm.tm_nsec,
    }
}

} // verus!
