//! Days and times of the calendar as text.
use vstd::prelude::*;

verus! {

/// The pattern of a day.
pub const DAY_PATTERN: &'static str = "%Y-%m-%d";

/// The pattern of a day and a time without a time zone.
pub const TIME_PATTERN: &'static str = "%Y-%m-%d %H:%M:%S%.6f";

/// The first day of the calendar, counted from 1970-01-01: the first day of the year -262143.
pub const FIRST_DAY: i32 = -96465292;

/// The last day of the calendar, counted from 1970-01-01: the last day of the year 262142.
pub const LAST_DAY: i32 = 95026236;

/// Whether the calendar has a day, counted from 1970-01-01.
pub open spec fn in_calendar(day: int) -> bool {
    FIRST_DAY <= day <= LAST_DAY
}

/// The text that `chrono` gives the day `days` days after 1970-01-01 in a pattern.
pub uninterp spec fn day_in_pattern(days: i32, pattern: Seq<char>) -> Option<Seq<char>>;

/// The text that `chrono` gives the day of a moment, in milliseconds after 1970-01-01, in a
/// pattern.
pub uninterp spec fn milli_day_in_pattern(millis: i64, pattern: Seq<char>) -> Option<Seq<char>>;

/// The text that `chrono` gives a moment, in microseconds after 1970-01-01, in a pattern.
pub uninterp spec fn micros_in_pattern(micros: i64, pattern: Seq<char>) -> Option<Seq<char>>;

/// The text of RFC 3339, in UTC and with microseconds, that `chrono` gives a moment, in
/// microseconds after 1970-01-01.
pub uninterp spec fn micros_in_rfc3339(micros: i64) -> Option<Seq<char>>;

/// Writes the day `days` days after 1970-01-01 in a pattern.
///
/// Calls `NaiveDate::checked_add_signed` on the Unix epoch and `NaiveDate::format`. Claimed of
/// them: there is a text exactly for the days of the calendar of `chrono`, from `NaiveDate::MIN`
/// to `NaiveDate::MAX`, and it depends on the day and the pattern alone.
#[verifier::external_body]
pub(crate) fn write_day(days: i32, pattern: &str) -> (s: Option<String>)
    requires
        pattern@ == DAY_PATTERN@,
    ensures
        s.deep_view() == day_in_pattern(days, pattern@),
        s is Some <==> in_calendar(days as int),
{
    let epoch = chrono::DateTime::UNIX_EPOCH.date_naive();
    let day = epoch.checked_add_signed(chrono::Duration::days(days as i64))?;
    Some(day.format(pattern).to_string())
}

/// Writes the day of a moment, in milliseconds after 1970-01-01, in a pattern.
///
/// Calls `DateTime::from_timestamp_millis` and `NaiveDate::format`. Claimed of them: there is a
/// text exactly for the moments on a day of the calendar of `chrono`, and it depends on the moment
/// and the pattern alone.
#[verifier::external_body]
pub(crate) fn write_milli_day(millis: i64, pattern: &str) -> (s: Option<String>)
    requires
        pattern@ == DAY_PATTERN@,
    ensures
        s.deep_view() == milli_day_in_pattern(millis, pattern@),
        s is Some <==> in_calendar(millis as int / 86_400_000),
{
    let moment = chrono::DateTime::from_timestamp_millis(millis)?;
    Some(moment.date_naive().format(pattern).to_string())
}

/// Writes a moment, in microseconds after 1970-01-01, in a pattern.
///
/// Calls `DateTime::from_timestamp_micros` and `NaiveDateTime::format`. Claimed of them: there is
/// a text exactly for the moments on a day of the calendar of `chrono`, and it depends on the
/// moment and the pattern alone.
#[verifier::external_body]
pub(crate) fn write_micros(micros: i64, pattern: &str) -> (s: Option<String>)
    requires
        pattern@ == TIME_PATTERN@,
    ensures
        s.deep_view() == micros_in_pattern(micros, pattern@),
        s is Some <==> in_calendar(micros as int / 86_400_000_000),
{
    let moment = chrono::DateTime::from_timestamp_micros(micros)?;
    Some(moment.naive_utc().format(pattern).to_string())
}

/// Writes a moment, in microseconds after 1970-01-01, as RFC 3339 has it.
///
/// Calls `DateTime::from_timestamp_micros` and `DateTime::to_rfc3339_opts` with microseconds and
/// `Z` for UTC. Claimed of them: there is a text exactly for the moments on a day of the calendar
/// of `chrono`, and it depends on the moment alone.
#[verifier::external_body]
pub(crate) fn write_micros_rfc3339(micros: i64) -> (s: Option<String>)
    ensures
        s.deep_view() == micros_in_rfc3339(micros),
        s is Some <==> in_calendar(micros as int / 86_400_000_000),
{
    let moment = chrono::DateTime::from_timestamp_micros(micros)?;
    Some(moment.to_rfc3339_opts(chrono::SecondsFormat::Micros, true))
}

// ---------------------------------------------------------------------------
// Moments
// ---------------------------------------------------------------------------

/// A moment: seconds after 1970-01-01 in UTC, and nanoseconds. Within a leap second there are more
/// than a thousand million nanoseconds.
#[derive(Clone, Copy, PartialEq, Eq, Structural, Debug)]
pub struct Moment {
    pub secs: i64,
    pub nanos: u32,
}

/// Whether the calendar has a moment.
pub open spec fn is_moment(moment: Moment) -> bool {
    &&& in_calendar(moment.secs as int / 86_400)
    &&& moment.nanos < 1_000_000_000 || (moment.nanos < 2_000_000_000 && moment.secs as int % 60
        == 59)
}

/// The text of RFC 3339 that `chrono` gives a moment in UTC.
pub uninterp spec fn moment_in_rfc3339(secs: i64, nanos: u32) -> Option<Seq<char>>;

/// Writes a moment as RFC 3339 has it.
///
/// Calls `DateTime::from_timestamp` and `DateTime::to_rfc3339`. Claimed of them: there is a text
/// exactly for the moments of the calendar of `chrono`, and it depends on the moment alone.
#[verifier::external_body]
pub(crate) fn write_moment(moment: Moment) -> (s: Option<String>)
    ensures
        s.deep_view() == moment_in_rfc3339(moment.secs, moment.nanos),
        s is Some <==> is_moment(moment),
{
    let found = chrono::DateTime::from_timestamp(moment.secs, moment.nanos)?;
    Some(found.to_rfc3339())
}

/// The moment of the call.
///
/// Calls `Utc::now`, which reads the clock of the machine. Claimed of it: the moment is not before
/// 1970-01-01, the calendar has it, and it is not within a leap second. Which moment it is depends
/// on the clock.
#[verifier::external_body]
pub(crate) fn utc_now() -> (now: Moment)
    ensures
        now.secs >= 0,
        is_moment(now),
        now.nanos < 1_000_000_000,
{
    let now = chrono::Utc::now();
    Moment { secs: now.timestamp(), nanos: now.timestamp_subsec_nanos() }
}

/// The moment `seconds` seconds before one that is not within a leap second, where the calendar has
/// it.
pub open spec fn moment_before(moment: Moment, seconds: int) -> Option<Moment> {
    let secs = moment.secs - seconds;
    if in_calendar(secs / 86_400) {
        Some(Moment { secs: secs as i64, nanos: moment.nanos })
    } else {
        None
    }
}

/// The moment `seconds` seconds before one that is not within a leap second, where the calendar has
/// it.
pub fn earlier(moment: Moment, seconds: i64) -> (r: Option<Moment>)
    requires
        moment.nanos < 1_000_000_000,
    ensures
        r == moment_before(moment, seconds as int),
        r matches Some(found) ==> is_moment(found),
{
    let secs: i128 = moment.secs as i128 - seconds as i128;
    let first: i128 = FIRST_DAY as i128 * 86_400;
    let behind: i128 = (LAST_DAY as i128 + 1) * 86_400;
    if first <= secs && secs < behind {
        Some(Moment { secs: secs as i64, nanos: moment.nanos })
    } else {
        None
    }
}

/// The moment so many seconds before another is that far back, within the same second's part, and
/// there is one exactly where its day is in the calendar.
pub proof fn earlier_moments_lie_back(moment: Moment, seconds: int)
    ensures
        moment_before(moment, seconds) is Some <==> -96465292 <= (moment.secs - seconds) / 86_400
            <= 95026236,
        moment_before(moment, seconds) matches Some(then) ==> then.secs + seconds == moment.secs
            && then.nanos == moment.nanos,
{
}

} // verus!
