//! Instants of the UTC calendar, computed by `chrono`.
//!
//! An instant is a count of milliseconds since 1970-01-01 00:00:00 UTC.

use crate::text::digit;
use vstd::prelude::*;

verus! {

/// The `strftime` pattern of a date: day of the month, name of the month,
/// year.
pub const DATE_PATTERN: &'static str = "%d %B %Y";

/// The `strftime` pattern of a time of day: hours and minutes on a 24-hour
/// clock.
pub const CLOCK_PATTERN: &'static str = "%H:%M";

/// The minute of the day in which an instant falls in UTC, counted from
/// midnight.
pub open spec fn minute_of_day(millis: int) -> int {
    ((millis / 1000) % 86_400) / 60
}

/// A number below a hundred, written in two digits.
pub open spec fn two_digits(n: int) -> Seq<char> {
    seq![digit(n / 10), digit(n % 10)]
}

/// The time of day of an instant in UTC, as `HH:MM` on a 24-hour clock.
pub open spec fn utc_clock(millis: int) -> Seq<char> {
    two_digits(minute_of_day(millis) / 60) + seq![':'] + two_digits(minute_of_day(millis) % 60)
}

/// Two hours later the clock shows the time of day two hours on, past
/// midnight where the day ends in between.
pub proof fn lemma_two_hours_later(millis: int)
    ensures
        0 <= minute_of_day(millis) < 1440,
        minute_of_day(millis + 7_200_000) == (minute_of_day(millis) + 120) % 1440,
{
    let seconds = millis / 1000;
    assert((millis + 7_200_000) / 1000 == seconds + 7200);
    let of_day = seconds % 86_400;
    let later = (seconds + 7200) % 86_400;
    assert(later == if of_day + 7200 < 86_400 {
        of_day + 7200
    } else {
        of_day + 7200 - 86_400
    });
    let minute = of_day / 60;
    assert(later / 60 == if of_day + 7200 < 86_400 {
        minute + 120
    } else {
        minute + 120 - 1440
    });
}

/// What `chrono` writes for the UTC date and time at `millis` under the
/// `strftime` pattern `pattern`; `None` where the instant lies outside the
/// calendar or the pattern is not one it accepts.
pub uninterp spec fn utc_formatted(millis: i64, pattern: Seq<char>) -> Option<Seq<char>>;

/// The instant at which the UTC calendar shows the given date and time of
/// day, as `chrono` computes it; `None` where there is no such date or time.
pub uninterp spec fn utc_instant(
    year: i32,
    month: u32,
    day: u32,
    hour: u32,
    minute: u32,
    second: u32,
) -> Option<i64>;

/// `chrono::DateTime::from_timestamp_millis`, then `DateTime::format` written
/// out with `DelayedFormat::write_to`. The result depends on the two
/// arguments alone and `utc_formatted` names it: the text that was written,
/// or `None` where the first call gives `None` or the writing reports an
/// error. Under `%H:%M` the text is the hour and the minute of the instant's
/// time of day in UTC, each in two digits, with a colon between them.
#[verifier::external_body]
pub(crate) fn format_utc(millis: i64, pattern: &str) -> (formatted: Option<String>)
    ensures
        match formatted {
            Some(text) => utc_formatted(millis, pattern@) == Some(text@),
            None => utc_formatted(millis, pattern@) is None,
        },
        pattern@ == CLOCK_PATTERN@ ==> (formatted matches Some(text) ==> text@ == utc_clock(
            millis as int,
        )),
{
    let instant = chrono::DateTime::from_timestamp_millis(millis)?;
    let mut text = String::new();
    instant.format(pattern).write_to(&mut text).ok()?;
    Some(text)
}

/// `chrono::TimeZone::with_ymd_and_hms` on `Utc`, read back with
/// `DateTime::timestamp_millis`. The result depends on the six arguments
/// alone and `utc_instant` names it: `None` where the call gives no single
/// date and time.
#[verifier::external_body]
pub(crate) fn instant_utc(
    year: i32,
    month: u32,
    day: u32,
    hour: u32,
    minute: u32,
    second: u32,
) -> (instant: Option<i64>)
    ensures
        instant == utc_instant(year, month, day, hour, minute, second),
{
    chrono::TimeZone::with_ymd_and_hms(&chrono::Utc, year, month, day, hour, minute, second)
        .single()
        .map(|at| at.timestamp_millis())
}

} // verus!
