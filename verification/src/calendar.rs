//! The Gregorian calendar within one year: leap years, month lengths, and
//! the ordinal of a date and back.

use vstd::prelude::*;

verus! {

/// The Gregorian rule: a year is a leap year when 400 divides it, or when
/// 4 divides it and 100 does not.
pub open spec fn is_leap(year: int) -> bool {
    year % 400 == 0 || (year % 4 == 0 && year % 100 != 0)
}

/// The number of days in `month` of `year`; 0 for a month outside 1..=12.
pub open spec fn month_length(year: int, month: int) -> int {
    if month == 2 {
        if is_leap(year) {
            29
        } else {
            28
        }
    } else if month == 4 || month == 6 || month == 9 || month == 11 {
        30
    } else if 1 <= month <= 12 {
        31
    } else {
        0
    }
}

/// The number of days in the months of `year` that come before `month`.
pub open spec fn days_before_month(year: int, month: int) -> int
    decreases month,
{
    if month <= 1 {
        0
    } else {
        days_before_month(year, month - 1) + month_length(year, month - 1)
    }
}

/// The number of days in `year`.
pub open spec fn days_in_year(year: int) -> int {
    if is_leap(year) {
        366
    } else {
        365
    }
}

/// `day` of `month` is a date of the calendar of `year`.
pub open spec fn valid_date(year: int, month: int, day: int) -> bool {
    1 <= month <= 12 && 1 <= day <= month_length(year, month)
}

/// The 1-based ordinal of a date within its year.
pub open spec fn ordinal(year: int, month: int, day: int) -> int {
    days_before_month(year, month) + day
}

/// The days before each month, written out.
pub proof fn lemma_days_before_month(year: int)
    ensures
        days_before_month(year, 1) == 0,
        days_before_month(year, 2) == 31,
        days_before_month(year, 3) == 31 + month_length(year, 2),
        days_before_month(year, 4) == 62 + month_length(year, 2),
        days_before_month(year, 5) == 92 + month_length(year, 2),
        days_before_month(year, 6) == 123 + month_length(year, 2),
        days_before_month(year, 7) == 153 + month_length(year, 2),
        days_before_month(year, 8) == 184 + month_length(year, 2),
        days_before_month(year, 9) == 215 + month_length(year, 2),
        days_before_month(year, 10) == 245 + month_length(year, 2),
        days_before_month(year, 11) == 276 + month_length(year, 2),
        days_before_month(year, 12) == 306 + month_length(year, 2),
        days_before_month(year, 13) == days_in_year(year),
{
    reveal_with_fuel(days_before_month, 14);
}

/// Tells whether `year` is a leap year of the Gregorian calendar.
pub fn leap_year(year: i32) -> (leap: bool)
    ensures
        leap == is_leap(year as int),
{
    // The year is shifted by a multiple of 400 that makes it positive; the
    // remainders stay what they are.
    let shifted: i64 = year as i64 + 2_147_484_000;
    proof {
        let y = year as int;
        vstd::arithmetic::div_mod::lemma_mod_multiples_vanish(5_368_710, y, 400);
        vstd::arithmetic::div_mod::lemma_mod_multiples_vanish(536_871_000, y, 4);
        vstd::arithmetic::div_mod::lemma_mod_multiples_vanish(21_474_840, y, 100);
        assert(shifted == 400 * 5_368_710 + y);
        assert(shifted == 4 * 536_871_000 + y);
        assert(shifted == 100 * 21_474_840 + y);
    }
    (shifted % 400 == 0) || (shifted % 4 == 0 && shifted % 100 != 0)
}

/// The lengths of the twelve months of `year`, January first.
pub fn days_in_months(year: i32) -> (lengths: [u32; 12])
    ensures
        forall|m: int| 1 <= m <= 12 ==> #[trigger] lengths[m - 1] == month_length(year as int, m),
{
    let february: u32 = if leap_year(year) {
        29
    } else {
        28
    };
    [31, february, 31, 30, 31, 30, 31, 31, 30, 31, 30, 31]
}

/// What `day_of_year` gives for any year, month and day: the ordinal of
/// the date, where a month outside 1..=12 counts as the nearer of January
/// and December and a result beyond `i32::MAX` as `i32::MAX`.
pub open spec fn day_of_year_of(year: int, month: int, day: int) -> int {
    let counted = if month < 1 {
        1
    } else if month > 12 {
        12
    } else {
        month
    };
    if ordinal(year, counted, day) > i32::MAX {
        i32::MAX as int
    } else {
        ordinal(year, counted, day)
    }
}

/// The 1-based ordinal of a date within its year: the lengths of the months
/// before `month`, plus `day`.
///
/// No date is refused. A `month` outside 1..=12 counts as the nearer of
/// January and December, and an ordinal too large for the result comes out
/// as `i32::MAX`.
pub fn day_of_year(year: i32, month: u32, day: u32) -> (n: i32)
    ensures
        n == day_of_year_of(year as int, month as int, day as int),
        valid_date(year as int, month as int, day as int) ==> n == ordinal(
            year as int,
            month as int,
            day as int,
        ) && 1 <= n <= days_in_year(year as int),
{
    let lengths = days_in_months(year);
    let months_before: usize = if month < 1 {
        0
    } else if month > 12 {
        11
    } else {
        (month - 1) as usize
    };
    let mut sum: u64 = 0;
    let mut i: usize = 0;
    while i < months_before
        invariant
            0 <= i <= months_before <= 11,
            sum == days_before_month(year as int, i + 1),
            sum <= 31 * i,
            forall|m: int| 1 <= m <= 12 ==> #[trigger] lengths[m - 1] == month_length(year as int, m),
        decreases months_before - i,
    {
        assert(lengths[(i + 1) - 1] == month_length(year as int, i + 1));
        sum = sum + lengths[i] as u64;
        i = i + 1;
    }
    proof {
        lemma_days_before_month(year as int);
    }
    let total: u64 = sum + day as u64;
    if total > i32::MAX as u64 {
        i32::MAX
    } else {
        total as i32
    }
}

/// Walks the months from `month` on until `remaining` days fit into one:
/// that month, and the day within it. What is left over after December is
/// taken as 31 December.
pub open spec fn month_day_from(year: int, month: int, remaining: int) -> (int, int)
    decreases 13 - month,
{
    if month > 12 {
        (12, 31)
    } else if remaining <= month_length(year, month) {
        (month, remaining)
    } else {
        month_day_from(year, month + 1, remaining - month_length(year, month))
    }
}

/// The month and day of the `doy`-th day of `year`. An ordinal beyond the
/// year's last day, or below zero, is taken as 31 December.
pub open spec fn month_day_of(year: int, doy: int) -> (int, int) {
    if doy < 0 {
        (12, 31)
    } else {
        month_day_from(year, 1, doy)
    }
}

/// The days before a month do not shrink from a month to a later one.
proof fn lemma_days_before_grows(year: int, from: int, month: int)
    requires
        1 <= from <= month,
    ensures
        days_before_month(year, from) <= days_before_month(year, month),
    decreases month - from,
{
    if from < month {
        lemma_days_before_grows(year, from, month - 1);
    }
}

/// The walk from month `from` finds a date of a later or the same month.
proof fn lemma_walk_finds_date(year: int, from: int, month: int, day: int)
    requires
        1 <= from <= month,
        valid_date(year, month, day),
    ensures
        month_day_from(
            year,
            from,
            days_before_month(year, month) - days_before_month(year, from) + day,
        ) == (month, day),
    decreases month - from,
{
    if from < month {
        lemma_walk_finds_date(year, from + 1, month, day);
        lemma_days_before_grows(year, from + 1, month);
    }
}

/// The month and day of a date's ordinal are the date's own.
pub proof fn lemma_calendar_round_trip(year: int, month: int, day: int)
    requires
        valid_date(year, month, day),
    ensures
        month_day_of(year, ordinal(year, month, day)) == (month, day),
{
    lemma_walk_finds_date(year, 1, month, day);
    lemma_days_before_grows(year, 1, month);
}

/// What the walk from month `from` finds for a positive ordinal within the
/// year is a date of the calendar with that ordinal.
proof fn lemma_walk_gives_date(year: int, from: int, remaining: int)
    requires
        1 <= from <= 12,
        1 <= remaining <= days_in_year(year) - days_before_month(year, from),
    ensures
        valid_date(year, month_day_from(year, from, remaining).0, month_day_from(year, from, remaining).1),
        ordinal(year, month_day_from(year, from, remaining).0, month_day_from(year, from, remaining).1)
            == days_before_month(year, from) + remaining,
    decreases 13 - from,
{
    lemma_days_before_month(year);
    if remaining > month_length(year, from) {
        lemma_walk_gives_date(year, from + 1, remaining - month_length(year, from));
    }
}

/// The walk from month `from` takes more days than the year has left as
/// 31 December.
proof fn lemma_walk_past_year(year: int, from: int, remaining: int)
    requires
        1 <= from <= 13,
        remaining > days_in_year(year) - days_before_month(year, from),
    ensures
        month_day_from(year, from, remaining) == (12int, 31int),
    decreases 13 - from,
{
    lemma_days_before_month(year);
    if from <= 12 {
        lemma_walk_past_year(year, from + 1, remaining - month_length(year, from));
    }
}

/// The month and day of an ordinal within the year form the date of the
/// calendar that has this ordinal.
pub proof fn lemma_month_day_of_ordinal(year: int, doy: int)
    requires
        1 <= doy <= days_in_year(year),
    ensures
        valid_date(year, month_day_of(year, doy).0, month_day_of(year, doy).1),
        ordinal(year, month_day_of(year, doy).0, month_day_of(year, doy).1) == doy,
{
    lemma_walk_gives_date(year, 1, doy);
}

/// The month and day of the `doy`-th day of `year`.
///
/// The month lengths are walked until `doy` fits into a month. An ordinal
/// beyond the year's last day, or below zero, gives 31 December.
pub fn doy_to_month_day(year: i32, doy: i32) -> (date: (u32, u32))
    ensures
        (date.0 as int, date.1 as int) == month_day_of(year as int, doy as int),
        1 <= doy <= days_in_year(year as int) ==> valid_date(
            year as int,
            date.0 as int,
            date.1 as int,
        ) && ordinal(year as int, date.0 as int, date.1 as int) == doy,
        doy > days_in_year(year as int) || doy < 0 ==> date == (12u32, 31u32),
{
    proof {
        if 1 <= doy <= days_in_year(year as int) {
            lemma_month_day_of_ordinal(year as int, doy as int);
        }
        if doy > days_in_year(year as int) {
            lemma_days_before_month(year as int);
            lemma_walk_past_year(year as int, 1, doy as int);
        }
    }
    let ghost found = month_day_of(year as int, doy as int);
    if doy < 0 {
        return (12, 31);
    }
    let lengths = days_in_months(year);
    let mut remaining: u32 = doy as u32;
    let mut month: u32 = 1;
    while month <= 12
        invariant
            1 <= month <= 13,
            0 <= remaining <= doy,
            found == month_day_of(year as int, doy as int),
            found == month_day_from(year as int, month as int, remaining as int),
            1 <= doy <= days_in_year(year as int) ==> valid_date(year as int, found.0, found.1)
                && ordinal(year as int, found.0, found.1) == doy,
            doy > days_in_year(year as int) ==> found == (12int, 31int),
            forall|m: int| 1 <= m <= 12 ==> #[trigger] lengths[m - 1] == month_length(year as int, m),
        decreases 13 - month,
    {
        let length: u32 = lengths[(month - 1) as usize];
        assert(lengths[month as int - 1] == month_length(year as int, month as int));
        if remaining <= length {
            return (month, remaining);
        }
        remaining = remaining - length;
        month = month + 1;
    }
    (12, 31)
}

} // verus!
