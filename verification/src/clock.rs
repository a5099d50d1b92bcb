//! Calendar text of points in time.
use vstd::prelude::*;

use crate::text::opt_view;

verus! {

/// The date in UTC of a second of the Unix epoch, as `YYYY-MM-DD`; nothing outside the range of
/// the calendar (`chrono::DateTime::from_timestamp`, `format`).
pub uninterp spec fn utc_date_text(seconds: int) -> Option<Seq<char>>;

/// `chrono::DateTime::from_timestamp` with `format("%Y-%m-%d")`: the date of a second, which
/// depends on that second alone. The calendar itself is left to the crate.
#[verifier::external_body]
pub(crate) fn utc_date(seconds: i64) -> (r: Option<String>)
    ensures
        opt_view(r) == utc_date_text(seconds as int),
{
    chrono::DateTime::<chrono::Utc>::from_timestamp(seconds, 0).map(
        |date| date.format("%Y-%m-%d").to_string(),
    )
}

/// The first second of the calendar: the beginning of the year -262143.
pub const CALENDAR_FIRST: i64 = -8_334_601_228_800;

/// The last second of the calendar: the end of the year 262142.
pub const CALENDAR_LAST: i64 = 8_210_266_876_799;

/// Whether a second of the Unix epoch lies inside the calendar.
pub open spec fn in_calendar(seconds: int) -> bool {
    CALENDAR_FIRST <= seconds <= CALENDAR_LAST
}

/// The milliseconds of a second of the Unix epoch; nothing outside the calendar.
pub open spec fn calendar_millis_of(seconds: int) -> Option<int> {
    if in_calendar(seconds) {
        Some(seconds * 1000)
    } else {
        None
    }
}

/// `chrono::DateTime::from_timestamp` and `timestamp_millis`: a second as milliseconds, where it
/// lies inside the calendar, which goes from `NaiveDate::MIN` to `NaiveDate::MAX`.
#[verifier::external_body]
pub(crate) fn calendar_millis(seconds: i64) -> (r: Option<i64>)
    ensures
        r is Some <==> in_calendar(seconds as int),
        r matches Some(ms) ==> ms == seconds * 1000,
{
    chrono::DateTime::<chrono::Utc>::from_timestamp(seconds, 0).map(|date| date.timestamp_millis())
}

/// The point in time that an RFC 3339 text spells, in milliseconds
/// (`chrono::DateTime::parse_from_rfc3339`).
pub uninterp spec fn rfc3339_millis(text: Seq<char>) -> Option<int>;

/// `chrono::DateTime::parse_from_rfc3339` and `timestamp_millis`: the point in time that a text
/// spells, which depends on the text alone. The grammar is left to the crate.
#[verifier::external_body]
pub(crate) fn parse_rfc3339(text: &str) -> (r: Option<i64>)
    ensures
        r is Some <==> rfc3339_millis(text@) is Some,
        r matches Some(ms) ==> rfc3339_millis(text@) == Some(ms as int),
{
    chrono::DateTime::parse_from_rfc3339(text).ok().map(|date| date.timestamp_millis())
}

/// The point in time that an RFC 2822 text spells, in milliseconds
/// (`chrono::DateTime::parse_from_rfc2822`).
pub uninterp spec fn rfc2822_millis(text: Seq<char>) -> Option<int>;

/// `chrono::DateTime::parse_from_rfc2822` and `timestamp_millis`: the point in time that a text
/// spells, which depends on the text alone. The grammar is left to the crate.
#[verifier::external_body]
pub(crate) fn parse_rfc2822(text: &str) -> (r: Option<i64>)
    ensures
        r is Some <==> rfc2822_millis(text@) is Some,
        r matches Some(ms) ==> rfc2822_millis(text@) == Some(ms as int),
{
    chrono::DateTime::parse_from_rfc2822(text).ok().map(|date| date.timestamp_millis())
}

/// The last millisecond of the year 9999.
pub const YEAR_9999_END_MS: i64 = 253_402_300_799_999;

/// The RFC 3339 text of a point in time, with an offset of `+00:00` and only as many digits of the
/// second as it needs; nothing outside the calendar (`chrono::DateTime::to_rfc3339`).
pub uninterp spec fn rfc3339_text(ms: int) -> Option<Seq<char>>;

/// `chrono::DateTime::from_timestamp_millis` and `to_rfc3339`: the text of a point in time, which
/// depends on that alone. From the epoch to the end of the year 9999 there is one, and
/// `parse_from_rfc3339` reads the point in time back from it.
#[verifier::external_body]
pub(crate) fn rfc3339(ms: i64) -> (r: Option<String>)
    ensures
        opt_view(r) == rfc3339_text(ms as int),
        r is None ==> !(0 <= ms <= YEAR_9999_END_MS),
        r matches Some(t) ==> (0 <= ms <= YEAR_9999_END_MS ==> rfc3339_millis(t@) == Some(
            ms as int,
        )),
{
    chrono::DateTime::<chrono::Utc>::from_timestamp_millis(ms).map(|date| date.to_rfc3339())
}

/// The RFC 3339 text of a point in time in the form `YYYY-MM-DDTHH:MM:SS.mmmZ`; nothing outside the
/// calendar (`chrono::DateTime::to_rfc3339_opts`).
pub uninterp spec fn stamp_text(ms: int) -> Option<Seq<char>>;

/// `chrono::DateTime::from_timestamp_millis` and `to_rfc3339_opts` with milliseconds and `Z`: the
/// text of a point in time, which depends on that alone. From the epoch to the end of the year
/// 9999 there is one, and `parse_from_rfc3339` reads the point in time back from it.
#[verifier::external_body]
pub(crate) fn format_timestamp(ms: i64) -> (r: Option<String>)
    ensures
        opt_view(r) == stamp_text(ms as int),
        r is None ==> !(0 <= ms <= YEAR_9999_END_MS),
        r matches Some(t) ==> (0 <= ms <= YEAR_9999_END_MS ==> rfc3339_millis(t@) == Some(
            ms as int,
        )),
{
    chrono::DateTime::<chrono::Utc>::from_timestamp_millis(ms).map(
        |date| date.to_rfc3339_opts(chrono::SecondsFormat::Millis, true),
    )
}

/// The point in time that a text of the form `YYYY-MM-DD HH:MM:SS` spells in UTC
/// (`chrono::NaiveDateTime::parse_from_str`).
pub uninterp spec fn plain_millis(text: Seq<char>) -> Option<int>;

/// `chrono::NaiveDateTime::parse_from_str` with `%Y-%m-%d %H:%M:%S`: the point in time that a text
/// spells in UTC, which depends on the text alone. The grammar is left to the crate.
#[verifier::external_body]
pub(crate) fn parse_plain(text: &str) -> (r: Option<i64>)
    ensures
        r is Some <==> plain_millis(text@) is Some,
        r matches Some(ms) ==> plain_millis(text@) == Some(ms as int),
{
    chrono::NaiveDateTime::parse_from_str(text, "%Y-%m-%d %H:%M:%S").ok().map(
        |date| date.and_utc().timestamp_millis(),
    )
}

/// The point in time of a stored text: RFC 3339, or the form that SQLite writes by itself.
pub open spec fn stored_millis(text: Seq<char>) -> Option<int> {
    if rfc3339_millis(text) is Some {
        rfc3339_millis(text)
    } else {
        plain_millis(text)
    }
}

/// Reads a stored point in time.
pub fn parse_timestamp(text: &str) -> (r: Option<i64>)
    ensures
        r is Some <==> stored_millis(text@) is Some,
        r matches Some(ms) ==> stored_millis(text@) == Some(ms as int),
{
    match parse_rfc3339(text) {
        Some(ms) => Some(ms),
        None => parse_plain(text),
    }
}

/// Writes a point in time so that it can be stored.
pub fn timestamp_text(ms: i64) -> (r: Option<String>)
    ensures
        opt_view(r) == stamp_text(ms as int),
        0 <= ms <= YEAR_9999_END_MS ==> (r matches Some(t) && stored_millis(t@) == Some(ms as int)),
{
    format_timestamp(ms)
}

/// Day of the week, counted from Monday, and second of the day of a point in time.
#[derive(Debug, Clone, Copy, PartialEq, Eq, Structural)]
pub struct LocalTime {
    pub weekday: u32,
    pub second: u32,
}

impl LocalTime {
    /// Whether this is a day of the week and a second of the day.
    pub open spec fn wf(self) -> bool {
        self.weekday < 7 && self.second < 86_400
    }
}

/// Weekday and second of a point in time where the zone of the given name is in force; nothing
/// where there is no such zone, or outside the calendar (`chrono_tz::Tz`, `with_timezone`).
pub uninterp spec fn local_time_of(ms: int, zone: Seq<char>) -> Option<LocalTime>;

/// `chrono_tz::Tz::from_str`, `with_timezone`, `weekday` and `num_seconds_from_midnight`: weekday
/// and second of a point in time in a named zone. They depend on the two arguments alone, the
/// zones being compiled into the crate. A weekday is below 7 and a second below 86400.
#[verifier::external_body]
pub(crate) fn local_time(ms: i64, zone: &str) -> (r: Option<LocalTime>)
    ensures
        r == local_time_of(ms as int, zone@),
        r matches Some(t) ==> t.wf(),
{
    let zone: chrono_tz::Tz = zone.parse().ok()?;
    let local = chrono::DateTime::<chrono::Utc>::from_timestamp_millis(ms)?.with_timezone(&zone);
    Some(
        LocalTime {
            weekday: chrono::Datelike::weekday(&local).num_days_from_monday(),
            second: chrono::Timelike::num_seconds_from_midnight(&local),
        },
    )
}

/// Whether there is a zone of that name (`chrono_tz::Tz::from_str`).
pub uninterp spec fn is_zone(name: Seq<char>) -> bool;

/// `chrono_tz::Tz::from_str`: whether a text names a zone, which depends on the text alone.
#[verifier::external_body]
pub(crate) fn names_zone(name: &str) -> (r: bool)
    ensures
        r == is_zone(name@),
{
    name.parse::<chrono_tz::Tz>().is_ok()
}

/// How a backup of an hour is named after its time.
pub const HOUR_PATTERN: &'static str = "%Y%m%d-%H%M%S";

/// How a backup of a day is named after its time.
pub const DAY_PATTERN: &'static str = "%Y%m%d";

/// How a backup of a week is named after its time.
pub const WEEK_PATTERN: &'static str = "%Y-W%V";

/// The text of a point in time in UTC under a pattern; nothing outside the calendar
/// (`chrono::DateTime::format`).
pub uninterp spec fn utc_text(ms: int, pattern: Seq<char>) -> Option<Seq<char>>;

/// `chrono::DateTime::from_timestamp_millis` and `format`: the text of a point in time under a
/// pattern, which depends on the two alone. Only patterns that can be written are taken.
#[verifier::external_body]
pub(crate) fn utc_format(ms: i64, pattern: &str) -> (r: Option<String>)
    requires
        pattern@ == HOUR_PATTERN@ || pattern@ == DAY_PATTERN@ || pattern@ == WEEK_PATTERN@,
    ensures
        opt_view(r) == utc_text(ms as int, pattern@),
{
    chrono::DateTime::<chrono::Utc>::from_timestamp_millis(ms).map(
        |date| date.format(pattern).to_string(),
    )
}

/// A second of the calendar has a thousand milliseconds, and a stored time is read in the first form
/// that fits.
pub proof fn seconds_are_thousands(seconds: int, text: Seq<char>)
    ensures
        -8_334_601_228_800 <= seconds <= 8_210_266_876_799 ==> calendar_millis_of(seconds) == Some(
            seconds * 1_000,
        ),
        seconds < -8_334_601_228_800 || seconds > 8_210_266_876_799 ==> calendar_millis_of(
            seconds,
        ) is None,
        rfc3339_millis(text) is Some ==> stored_millis(text) == rfc3339_millis(text),
        rfc3339_millis(text) is None ==> stored_millis(text) == plain_millis(text),
{
}

} // verus!
