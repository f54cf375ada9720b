//! Calendar dates as chrono sees them: which (year, month, day) and
//! (hour, minute, second) triples are valid, and the chrono calls that the
//! date picker makes on them.

use chrono::{Datelike, NaiveDate, NaiveTime, TimeDelta};
use vstd::prelude::*;

verus! {

/// Earliest year a `chrono::NaiveDate` holds.
pub const CHRONO_MIN_YEAR: i32 = -262143i32;

/// Latest year a `chrono::NaiveDate` holds.
pub const CHRONO_MAX_YEAR: i32 = 262142i32;

/// Whether `year` is a leap year of the proleptic Gregorian calendar.
pub open spec fn is_leap_year(year: int) -> bool {
    year % 4 == 0 && (year % 100 != 0 || year % 400 == 0)
}

/// Number of days of `month` (1..=12) in `year`.
pub open spec fn days_in_month(year: int, month: int) -> int {
    if month == 2 {
        if is_leap_year(year) { 29 } else { 28 }
    } else if month == 4 || month == 6 || month == 9 || month == 11 {
        30
    } else {
        31
    }
}

/// Whether `NaiveDate::from_ymd_opt` accepts a date: the year lies in
/// chrono's range and the day exists in that month of that year.
pub open spec fn is_valid_ymd(year: i32, month: u32, day: u32) -> bool {
    &&& CHRONO_MIN_YEAR <= year <= CHRONO_MAX_YEAR
    &&& 1 <= month <= 12
    &&& 1 <= day <= days_in_month(year as int, month as int)
}

/// Whether `NaiveTime::from_hms_opt` accepts a time of day.
pub open spec fn is_valid_hms(hour: u32, minute: u32, second: u32) -> bool {
    hour < 24 && minute < 60 && second < 60
}

/// Whether `chrono::TimeDelta::days` accepts a count of days (it panics
/// beyond `i64::MAX` milliseconds either way).
pub open spec fn days_delta_in_range(days: i64) -> bool {
    -(i64::MAX / 1000) <= days * 86400 <= i64::MAX / 1000
}

/// What `NaiveDate::weekday().num_days_from_sunday()` answers for a valid
/// date (0 = Sunday).
pub uninterp spec fn weekday_from_sunday(year: i32, month: u32, day: u32) -> u32;

/// What `NaiveDate::checked_add_signed(TimeDelta::days(days))` gives for a
/// valid date, as (year, month, day).
pub uninterp spec fn date_plus_days(year: i32, month: u32, day: u32, days: i64) -> Option<(i32, u32, u32)>;

/// The date part of what `NaiveDateTime::checked_add_signed(TimeDelta::days(days))`
/// gives for a valid date and time, as (year, month, day).
pub uninterp spec fn datetime_plus_days(
    year: i32,
    month: u32,
    day: u32,
    hour: u32,
    minute: u32,
    second: u32,
    days: i64,
) -> Option<(i32, u32, u32)>;

/// Whether `chrono::NaiveDate::from_ymd_opt` accepts the date.
#[verifier::external_body]
pub(crate) fn ymd_is_valid(year: i32, month: u32, day: u32) -> (ok: bool)
    ensures
        ok == is_valid_ymd(year, month, day),
{
    NaiveDate::from_ymd_opt(year, month, day).is_some()
}

/// Whether `chrono::NaiveTime::from_hms_opt` accepts the time of day.
#[verifier::external_body]
pub(crate) fn hms_is_valid(hour: u32, minute: u32, second: u32) -> (ok: bool)
    ensures
        ok == is_valid_hms(hour, minute, second),
{
    NaiveTime::from_hms_opt(hour, minute, second).is_some()
}

/// The weekday of a valid date, counted from Sunday = 0
/// (`NaiveDate::weekday`, then `Weekday::num_days_from_sunday`).
#[verifier::external_body]
pub(crate) fn weekday_of(year: i32, month: u32, day: u32) -> (w: u32)
    requires
        is_valid_ymd(year, month, day),
    ensures
        w == weekday_from_sunday(year, month, day),
        w < 7,
{
    match NaiveDate::from_ymd_opt(year, month, day) {
        Some(date) => date.weekday().num_days_from_sunday(),
        None => 0,
    }
}

/// A valid date moved by whole days (`NaiveDate::checked_add_signed` with
/// `TimeDelta::days`); `None` when the result leaves chrono's range.
#[verifier::external_body]
pub(crate) fn add_days_to_date(year: i32, month: u32, day: u32, days: i64) -> (r: Option<(i32, u32, u32)>)
    requires
        is_valid_ymd(year, month, day),
        days_delta_in_range(days),
    ensures
        r == date_plus_days(year, month, day, days),
{
    match NaiveDate::from_ymd_opt(year, month, day) {
        Some(date) => match date.checked_add_signed(TimeDelta::days(days)) {
            Some(d) => Some((d.year(), d.month(), d.day())),
            None => None,
        },
        None => None,
    }
}

/// The date of a valid date and time moved by whole days
/// (`NaiveDateTime::checked_add_signed` with `TimeDelta::days`); `None` when
/// the result leaves chrono's range.
#[verifier::external_body]
pub(crate) fn add_days_to_datetime(
    year: i32,
    month: u32,
    day: u32,
    hour: u32,
    minute: u32,
    second: u32,
    days: i64,
) -> (r: Option<(i32, u32, u32)>)
    requires
        is_valid_ymd(year, month, day),
        is_valid_hms(hour, minute, second),
        days_delta_in_range(days),
    ensures
        r == datetime_plus_days(year, month, day, hour, minute, second, days),
{
    match (NaiveDate::from_ymd_opt(year, month, day), NaiveTime::from_hms_opt(hour, minute, second)) {
        (Some(date), Some(time)) => match date.and_time(time).checked_add_signed(TimeDelta::days(days)) {
            Some(dt) => Some((dt.year(), dt.month(), dt.day())),
            None => None,
        },
        _ => None,
    }
}

} // verus!
