//! The calendar day and time of day of an instant, read from a UTC date
//! and time of the `chrono` crate.

use vstd::prelude::*;
use chrono::{Datelike, NaiveDateTime, Timelike};
use crate::calendar::{day_of_year, day_of_year_of, lemma_days_before_month, ordinal};

verus! {

/// `chrono::NaiveDateTime`, a calendar date and time of day without a time
/// zone. Nothing of its inside is seen here.
#[verifier::external_type_specification]
#[verifier::external_body]
pub struct ExNaiveDateTime(chrono::NaiveDateTime);

/// `Datelike::year` of a `NaiveDateTime`: the year number of the calendar
/// date. Nothing is claimed of it.
#[verifier::external_body]
fn calendar_year(dt: &NaiveDateTime) -> (year: i32) {
    dt.year()
}

/// `Datelike::month` of a `NaiveDateTime`: the month number, which starts
/// from 1 and ranges to 12.
#[verifier::external_body]
fn calendar_month(dt: &NaiveDateTime) -> (month: u32)
    ensures
        1 <= month <= 12,
{
    dt.month()
}

/// `Datelike::day` of a `NaiveDateTime`: the day of the month, which
/// starts from 1 and ranges to 31.
#[verifier::external_body]
fn calendar_day(dt: &NaiveDateTime) -> (day: u32)
    ensures
        1 <= day <= 31,
{
    dt.day()
}

/// `Timelike::hour` of a `NaiveDateTime`: the hour number, from 0 to 23.
#[verifier::external_body]
fn clock_hour(dt: &NaiveDateTime) -> (hour: u32)
    ensures
        hour <= 23,
{
    dt.hour()
}

/// `Timelike::minute` of a `NaiveDateTime`: the minute number, from 0 to
/// 59.
#[verifier::external_body]
fn clock_minute(dt: &NaiveDateTime) -> (minute: u32)
    ensures
        minute <= 59,
{
    dt.minute()
}

/// `Timelike::second` of a `NaiveDateTime`: the second number, from 0 to
/// 59; it is 59 during a leap second too.
#[verifier::external_body]
fn clock_second(dt: &NaiveDateTime) -> (second: u32)
    ensures
        second <= 59,
{
    dt.second()
}

/// An instant as the solar formulas take it: the day of the year, and the
/// seconds since midnight.
#[derive(Debug, Clone, Copy, PartialEq, Eq)]
pub struct UtcInstant {
    pub day_of_year: i32,
    pub seconds_of_day: u32,
}

/// The seconds from midnight to a time of day.
pub open spec fn seconds_of(hour: int, minute: int, second: int) -> int {
    hour * 3600 + minute * 60 + second
}

/// The instant of a calendar date and a time of day.
pub fn instant_of(year: i32, month: u32, day: u32, hour: u32, minute: u32, second: u32) -> (instant:
    UtcInstant)
    requires
        hour <= 23,
        minute <= 59,
        second <= 59,
    ensures
        instant.day_of_year == day_of_year_of(year as int, month as int, day as int),
        1 <= month <= 12 && 1 <= day <= 31 ==> 1 <= instant.day_of_year <= 366 && instant.day_of_year
            == ordinal(year as int, month as int, day as int),
        instant.seconds_of_day == seconds_of(hour as int, minute as int, second as int),
        instant.seconds_of_day < 86_400,
{
    proof {
        lemma_days_before_month(year as int);
    }
    UtcInstant {
        day_of_year: day_of_year(year, month, day),
        seconds_of_day: hour * 3600 + minute * 60 + second,
    }
}

/// The instant of a UTC date and time: the ordinal of its calendar date
/// within the year, and its seconds since midnight.
pub fn utc_instant(dt: &NaiveDateTime) -> (instant: UtcInstant)
    ensures
        1 <= instant.day_of_year <= 366,
        instant.seconds_of_day < 86_400,
{
    instant_of(
        calendar_year(dt),
        calendar_month(dt),
        calendar_day(dt),
        clock_hour(dt),
        clock_minute(dt),
        clock_second(dt),
    )
}

} // verus!
