//! Civil dates from day counts, and the UTC timestamp that a table is
//! stamped with.

use vstd::prelude::*;
use vstd::string::StringExecFns;
use crate::calendar::{days_in_year, is_leap, lemma_days_before_month, ordinal, valid_date};

verus! {

/// Seconds in a day.
pub const SECONDS_PER_DAY: u64 = 86_400;

/// The number of days from 1 January 1970 to 1 January of `year`, for a
/// year from 1970 on.
pub open spec fn days_to_year(year: int) -> int
    decreases year,
{
    if year <= 1970 {
        0
    } else {
        days_to_year(year - 1) + days_in_year(year - 1)
    }
}

/// The number of days from 1 January 1970 to the given date.
pub open spec fn days_from_epoch(year: int, month: int, day: int) -> int {
    days_to_year(year) + ordinal(year, month, day) - 1
}

/// The number of leap years among the years 1 to `year`.
pub open spec fn leap_years_through(year: int) -> int {
    year / 4 - year / 100 + year / 400
}

/// `days_to_year` in closed form.
pub proof fn lemma_days_to_year(year: int)
    requires
        year >= 1970,
    ensures
        days_to_year(year) == 365 * (year - 1970) + leap_years_through(year - 1) - 477,
    decreases year,
{
    if year > 1970 {
        lemma_days_to_year(year - 1);
    }
}

/// The days of a 400-year era that come before its year `yoe`, the era
/// starting on 1 March.
pub open spec fn days_before_era_year(yoe: int) -> int {
    365 * yoe + yoe / 4 - yoe / 100
}

/// The year of its era in which day `doe` of the era falls.
pub open spec fn era_year(doe: int) -> int {
    (doe - doe / 1460 + doe / 36524 - doe / 146096) / 365
}

/// `lemma_era_year` within one century of the era.
#[verifier::spinoff_prover]
#[verifier::rlimit(50)]
proof fn lemma_era_year_of_century(doe: int, century: int)
    requires
        0 <= century <= 3,
        36524 * century <= doe,
        doe < 36524 * (century + 1) || (century == 3 && doe == 146096),
    ensures
        100 * century <= era_year(doe) <= 100 * century + 99,
        days_before_era_year(era_year(doe)) <= doe,
        era_year(doe) < 399 ==> doe < days_before_era_year(era_year(doe) + 1),
{
    let in_century = doe - 36524 * century;
    let leap_days = in_century / 1461;
    assert(0 <= leap_days <= 25);
}

/// The year formula finds the year of the era whose days hold `doe`.
proof fn lemma_era_year(doe: int)
    requires
        0 <= doe <= 146096,
    ensures
        0 <= era_year(doe) <= 399,
        days_before_era_year(era_year(doe)) <= doe,
        era_year(doe) < 399 ==> doe < days_before_era_year(era_year(doe) + 1),
{
    if doe < 36524 {
        lemma_era_year_of_century(doe, 0);
    } else if doe < 73048 {
        lemma_era_year_of_century(doe, 1);
    } else if doe < 109572 {
        lemma_era_year_of_century(doe, 2);
    } else {
        lemma_era_year_of_century(doe, 3);
    }
}

/// The days of a year that starts on 1 March which come before its month
/// `mp`, where month 0 is March and month 11 is February.
pub open spec fn days_before_march_month(mp: int) -> int {
    (153 * mp + 2) / 5
}

/// The month, counted from March, in which day `doy` of such a year falls.
pub open spec fn march_month(doy: int) -> int {
    (5 * doy + 2) / 153
}

/// The civil month of a month counted from March.
pub open spec fn civil_month(mp: int) -> int {
    if mp < 10 {
        mp + 3
    } else {
        mp - 9
    }
}

/// Day `doy` of the year that starts on 1 March of `march_year` is the
/// civil date that the month and day formulas give.
proof fn lemma_march_date(march_year: int, doy: int)
    requires
        march_year >= 1969,
        0 <= doy <= 365,
        doy == 365 ==> is_leap(march_year + 1),
        365 * march_year + leap_years_through(march_year) + doy >= 719468,
    ensures
        ({
            let mp = march_month(doy);
            let day = doy - days_before_march_month(mp) + 1;
            let month = civil_month(mp);
            let year = if month <= 2 {
                march_year + 1
            } else {
                march_year
            };
            &&& 0 <= mp <= 11
            &&& year >= 1970
            &&& valid_date(year, month, day)
            &&& days_from_epoch(year, month, day) == 365 * march_year + leap_years_through(
                march_year,
            ) + doy - 719468
        }),
{
    let mp = march_month(doy);
    let month = civil_month(mp);
    let year = if month <= 2 {
        march_year + 1
    } else {
        march_year
    };
    assert(0 <= mp <= 11);
    if year < 1970 {
        // Only the March year 1969 could give it, and its days from March
        // on all lie before the epoch.
        assert(march_year == 1969);
        assert(leap_years_through(1969) == 477);
        assert(doy >= 306);
        assert(mp >= 10);
        assert(false);
    }
    lemma_days_before_month(year);
    lemma_days_to_year(year);
}

/// Leap years are counted era by era: each era of 400 years holds 97.
proof fn lemma_era_offset(era: int, yoe: int)
    requires
        0 <= yoe <= 399,
    ensures
        leap_years_through(400 * era + yoe) == 97 * era + yoe / 4 - yoe / 100,
{
}

/// A year of the era has a 366th day only where the civil year that
/// follows it is a leap year.
proof fn lemma_era_leap_day(era: int, yoe: int)
    requires
        0 <= yoe <= 399,
        yoe < 399 ==> days_before_era_year(yoe) + 365 < days_before_era_year(yoe + 1),
    ensures
        is_leap(400 * era + yoe + 1),
{
}

/// The civil date, as year, month and day, that the day count `days` from
/// 1 January 1970 falls on.
///
/// Days are counted from 1 March of year 0, in eras of 400 years, so that
/// the leap day is the last day of a year.
pub open spec fn civil_from_days(days: int) -> (int, int, int) {
    let z = days + 719468;
    let era = z / 146097;
    let doe = z - era * 146097;
    let yoe = era_year(doe);
    let doy = doe - days_before_era_year(yoe);
    let mp = march_month(doy);
    let day = doy - days_before_march_month(mp) + 1;
    let month = civil_month(mp);
    let year = if month <= 2 {
        400 * era + yoe + 1
    } else {
        400 * era + yoe
    };
    (year, month, day)
}

/// `civil_from_days` gives a date of the calendar, and the date that lies
/// the given number of days after 1 January 1970.
pub proof fn lemma_civil_from_days(days: int)
    requires
        days >= 0,
    ensures
        civil_from_days(days).0 >= 1970,
        valid_date(civil_from_days(days).0, civil_from_days(days).1, civil_from_days(days).2),
        days_from_epoch(civil_from_days(days).0, civil_from_days(days).1, civil_from_days(days).2)
            == days,
{
    let z = days + 719468;
    let era = z / 146097;
    let doe = z - era * 146097;
    let yoe = era_year(doe);
    let doy = doe - days_before_era_year(yoe);
    lemma_era_year(doe);
    lemma_era_offset(era, yoe);
    if doy == 365 {
        lemma_era_leap_day(era, yoe);
    }
    lemma_march_date(400 * era + yoe, doy);
}

/// The civil date that lies `days_since_epoch` days after 1 January 1970,
/// as year, month and day.
pub fn days_to_ymd(days_since_epoch: u64) -> (date: (i64, u64, u64))
    ensures
        (date.0 as int, date.1 as int, date.2 as int) == civil_from_days(days_since_epoch as int),
        date.0 >= 1970,
        valid_date(date.0 as int, date.1 as int, date.2 as int),
        days_from_epoch(date.0 as int, date.1 as int, date.2 as int) == days_since_epoch,
{
    let z: i128 = days_since_epoch as i128 + 719468;
    let era: i128 = z / 146097;
    let doe: i128 = z - era * 146097;
    proof {
        lemma_civil_from_days(days_since_epoch as int);
        lemma_era_year(doe as int);
    }
    let yoe: i128 = (doe - doe / 1460 + doe / 36524 - doe / 146096) / 365;
    let y: i128 = yoe + era * 400;
    let doy: i128 = doe - (365 * yoe + yoe / 4 - yoe / 100);
    let mp: i128 = (5 * doy + 2) / 153;
    let d: i128 = doy - (153 * mp + 2) / 5 + 1;
    let m: i128 = if mp < 10 {
        mp + 3
    } else {
        mp - 9
    };
    let y: i128 = if m <= 2 {
        y + 1
    } else {
        y
    };
    (y as i64, m as u64, d as u64)
}

/// The character of a decimal digit.
pub open spec fn digit_char(d: int) -> char {
    if d == 0 {
        '0'
    } else if d == 1 {
        '1'
    } else if d == 2 {
        '2'
    } else if d == 3 {
        '3'
    } else if d == 4 {
        '4'
    } else if d == 5 {
        '5'
    } else if d == 6 {
        '6'
    } else if d == 7 {
        '7'
    } else if d == 8 {
        '8'
    } else {
        '9'
    }
}

/// `n` in decimal, with zeros in front where it has fewer than `width`
/// digits.
pub open spec fn decimal(n: nat, width: nat) -> Seq<char>
    decreases n, width,
{
    if n < 10 && width <= 1 {
        seq![digit_char(n as int)]
    } else {
        let rest_width = if width > 0 {
            (width - 1) as nat
        } else {
            0
        };
        decimal(n / 10, rest_width).push(digit_char((n % 10) as int))
    }
}

/// The text `+00:00`, which marks a timestamp as UTC.
pub open spec fn utc_suffix() -> Seq<char> {
    seq!['+', '0', '0', ':', '0', '0']
}

/// The timestamp of the instant `secs` seconds after the start of 1970, in
/// UTC: the date as year, month and day, the letter `T`, the time of day
/// as hours, minutes and seconds, and the UTC suffix.
pub open spec fn timestamp_text(secs: nat) -> Seq<char> {
    let date = civil_from_days(secs as int / 86_400);
    let second_of_day = secs % 86_400;
    decimal(date.0 as nat, 4) + seq!['-'] + decimal(date.1 as nat, 2) + seq!['-'] + decimal(
        date.2 as nat,
        2,
    ) + seq!['T'] + decimal(second_of_day / 3600, 2) + seq![':'] + decimal(
        (second_of_day % 3600) / 60,
        2,
    ) + seq![':'] + decimal(second_of_day % 60, 2) + utc_suffix()
}

fn digit(d: u64) -> (text: &'static str)
    requires
        d < 10,
    ensures
        text@ == seq![digit_char(d as int)],
{
    proof {
        reveal_strlit("0");
        reveal_strlit("1");
        reveal_strlit("2");
        reveal_strlit("3");
        reveal_strlit("4");
        reveal_strlit("5");
        reveal_strlit("6");
        reveal_strlit("7");
        reveal_strlit("8");
        reveal_strlit("9");
    }
    let text = if d == 0 {
        "0"
    } else if d == 1 {
        "1"
    } else if d == 2 {
        "2"
    } else if d == 3 {
        "3"
    } else if d == 4 {
        "4"
    } else if d == 5 {
        "5"
    } else if d == 6 {
        "6"
    } else if d == 7 {
        "7"
    } else if d == 8 {
        "8"
    } else {
        "9"
    };
    assert(text@ =~= seq![digit_char(d as int)]);
    text
}

/// Appends `n` in decimal, at least `width` digits wide.
fn push_decimal(s: &mut String, n: u64, width: u32)
    ensures
        final(s)@ == old(s)@ + decimal(n as nat, width as nat),
    decreases n, width,
{
    if n >= 10 || width > 1 {
        let rest_width: u32 = if width > 0 {
            width - 1
        } else {
            0
        };
        push_decimal(s, n / 10, rest_width);
    }
    s.append(digit(n % 10));
    assert(s@ =~= old(s)@ + decimal(n as nat, width as nat));
}

/// The timestamp of the instant `secs` seconds after the start of 1970, in
/// UTC, such as `2026-03-21T12:00:00+00:00`.
pub fn format_utc_timestamp(secs: u64) -> (stamp: String)
    ensures
        stamp@ == timestamp_text(secs as nat),
{
    let days: u64 = secs / SECONDS_PER_DAY;
    let second_of_day: u64 = secs % SECONDS_PER_DAY;
    let (year, month, day) = days_to_ymd(days);
    proof {
        reveal_strlit("-");
        reveal_strlit("T");
        reveal_strlit(":");
        reveal_strlit("+00:00");
    }
    let mut stamp = String::new();
    push_decimal(&mut stamp, year as u64, 4);
    stamp.append("-");
    push_decimal(&mut stamp, month, 2);
    stamp.append("-");
    push_decimal(&mut stamp, day, 2);
    stamp.append("T");
    push_decimal(&mut stamp, second_of_day / 3600, 2);
    stamp.append(":");
    push_decimal(&mut stamp, (second_of_day % 3600) / 60, 2);
    stamp.append(":");
    push_decimal(&mut stamp, second_of_day % 60, 2);
    stamp.append("+00:00");
    assert(stamp@ =~= timestamp_text(secs as nat));
    stamp
}

} // verus!
