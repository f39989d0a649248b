//! The part of a day that a table samples: the daylight interval, moved
//! into the table's time frame, widened by the configured buffers and
//! snapped to the sampling grid.

use vstd::prelude::*;
use crate::types::{LookupTableConfig, SunriseSunset, LAST_MINUTE, MICRO, MINUTES_PER_DAY};

verus! {

/// The first and last sampled minute of a day whose window is not empty.
#[derive(Debug, Clone, Copy, PartialEq, Eq)]
pub struct SampleWindow {
    pub first_minute: i32,
    pub last_minute: i32,
}

/// The earliest minute that may be sampled: sunrise less its buffer, and
/// not before midnight.
pub open spec fn window_start(config: LookupTableConfig, ss: SunriseSunset) -> int {
    let start = ss.sunrise - config.sunrise_buffer_minutes;
    if start < 0 {
        0
    } else {
        start
    }
}

/// The latest minute that may be sampled: sunset plus its buffer, and not
/// after the last minute of the day.
pub open spec fn window_end(config: LookupTableConfig, ss: SunriseSunset) -> int {
    let end = ss.sunset + config.sunset_buffer_minutes;
    if end > LAST_MINUTE {
        LAST_MINUTE as int
    } else {
        end
    }
}

/// The number of whole sampling intervals in a day.
pub open spec fn slots_per_day(interval: int) -> int {
    MINUTES_PER_DAY as int / interval
}

/// The index of the first sampled interval: the window's start, rounded up
/// to the sampling grid.
pub open spec fn first_slot(config: LookupTableConfig, ss: SunriseSunset) -> int {
    (window_start(config, ss) + config.interval_minutes - 1) / (config.interval_minutes as int)
}

/// The index of the last sampled interval: the window's end, rounded down
/// to the sampling grid, and not beyond the last interval of the day.
pub open spec fn last_slot(config: LookupTableConfig, ss: SunriseSunset) -> int {
    let by_end = window_end(config, ss) / (config.interval_minutes as int);
    let by_day = slots_per_day(config.interval_minutes as int) - 1;
    if by_end < by_day {
        by_end
    } else {
        by_day
    }
}

/// The number of sampled minutes of the day.
pub open spec fn slot_count(config: LookupTableConfig, ss: SunriseSunset) -> int {
    if last_slot(config, ss) >= first_slot(config, ss) {
        last_slot(config, ss) - first_slot(config, ss) + 1
    } else {
        0
    }
}

/// The `k`-th sampled minute of the day.
pub open spec fn sampled_minute(config: LookupTableConfig, ss: SunriseSunset, k: int) -> int {
    (first_slot(config, ss) + k) * config.interval_minutes
}

/// Quotient and remainder by a positive divisor, for the nonlinear steps.
proof fn lemma_div_bounds(a: int, d: int)
    requires
        d > 0,
    ensures
        (a / d) * d <= a < (a / d) * d + d,
        a >= 0 ==> a / d >= 0,
        a < 0 ==> a / d < 0,
{
    assert(a == d * (a / d) + a % d) by {
        vstd::arithmetic::div_mod::lemma_fundamental_div_mod(a, d);
    }
    assert(0 <= a % d < d) by {
        vstd::arithmetic::div_mod::lemma_mod_bound(a, d);
    }
    assert((a / d) * d == d * (a / d)) by (nonlinear_arith);
    if a >= 0 && a / d < 0 {
        assert((a / d) * d <= -d) by (nonlinear_arith)
            requires
                a / d <= -1,
                d > 0,
        ;
    }
    if a < 0 && a / d >= 0 {
        assert((a / d) * d >= 0) by (nonlinear_arith)
            requires
                a / d >= 0,
                d > 0,
        ;
    }
}

/// A multiple of the interval is sampled exactly when it lies in the
/// buffered window and its interval is one of the day's whole intervals.
pub proof fn lemma_slot_in_window(config: LookupTableConfig, ss: SunriseSunset, slot: int)
    requires
        config.interval_minutes > 0,
    ensures
        first_slot(config, ss) <= slot <= last_slot(config, ss) <==> {
            &&& window_start(config, ss) <= slot * config.interval_minutes <= window_end(config, ss)
            &&& slot < slots_per_day(config.interval_minutes as int)
        },
{
    let d = config.interval_minutes as int;
    let start = window_start(config, ss);
    let end = window_end(config, ss);
    let first = first_slot(config, ss);
    lemma_div_bounds(start + d - 1, d);
    lemma_div_bounds(end, d);
    if first <= slot {
        assert(first * d <= slot * d) by (nonlinear_arith)
            requires
                first <= slot,
                d > 0,
        ;
    } else {
        assert(slot * d <= first * d - d) by (nonlinear_arith)
            requires
                slot <= first - 1,
                d > 0,
        ;
    }
    if slot <= end / d {
        assert(slot * d <= (end / d) * d) by (nonlinear_arith)
            requires
                slot <= end / d,
                d > 0,
        ;
    } else {
        assert(slot * d >= (end / d) * d + d) by (nonlinear_arith)
            requires
                slot >= end / d + 1,
                d > 0,
        ;
    }
}

/// Every sampled minute is a minute of the day, and the sampled minutes
/// are one interval apart.
pub proof fn lemma_sampled_minutes(config: LookupTableConfig, ss: SunriseSunset, k: int)
    requires
        config.interval_minutes > 0,
        0 <= k < slot_count(config, ss),
    ensures
        0 <= sampled_minute(config, ss, k) <= LAST_MINUTE,
        sampled_minute(config, ss, k) == sampled_minute(config, ss, 0) + k * config.interval_minutes,
        sampled_minute(config, ss, k) % (config.interval_minutes as int) == 0,
        window_start(config, ss) <= sampled_minute(config, ss, k) <= window_end(config, ss),
{
    let d = config.interval_minutes as int;
    let first = first_slot(config, ss);
    lemma_slot_in_window(config, ss, first + k);
    assert((first + k) * d == (first + 0) * d + k * d) by (nonlinear_arith);
    assert(((first + k) * d) % d == 0) by {
        vstd::arithmetic::div_mod::lemma_mod_multiples_basic(first + k, d);
    }
}

/// A minute of the day moved into another time frame: `correction`, in
/// millionths of a minute, is what the minute's own frame is ahead of the
/// other. The result is rounded towards zero to a whole minute, and kept
/// within the range of an `i32`.
pub open spec fn shifted_minute(minute: int, correction: int) -> int {
    let raw = minute * MICRO - correction;
    let whole = if raw >= 0 {
        raw / (MICRO as int)
    } else {
        -((-raw) / (MICRO as int))
    };
    if whole < i32::MIN {
        i32::MIN as int
    } else if whole > i32::MAX {
        i32::MAX as int
    } else {
        whole
    }
}

/// Moves sunrise and sunset into the time frame of a table: `correction`,
/// in millionths of a minute, is what their own frame is ahead of the
/// table's. For a table kept in UTC it is the equation of time plus four
/// minutes for each degree of eastern longitude.
pub fn to_reference_frame(ss: SunriseSunset, correction: i64) -> (shifted: SunriseSunset)
    ensures
        shifted.sunrise == shifted_minute(ss.sunrise as int, correction as int),
        shifted.sunset == shifted_minute(ss.sunset as int, correction as int),
{
    SunriseSunset {
        sunrise: shift_minute(ss.sunrise, correction),
        sunset: shift_minute(ss.sunset, correction),
    }
}

fn shift_minute(minute: i32, correction: i64) -> (shifted: i32)
    ensures
        shifted == shifted_minute(minute as int, correction as int),
{
    assert(-0x8000_0000 * 1_000_000 <= minute * MICRO <= 0x8000_0000 * 1_000_000) by (nonlinear_arith)
        requires
            -0x8000_0000 <= minute <= 0x8000_0000,
            MICRO == 1_000_000,
    ;
    let raw: i128 = minute as i128 * MICRO as i128 - correction as i128;
    let whole: i128 = if raw >= 0 {
        raw / MICRO as i128
    } else {
        -((-raw) / MICRO as i128)
    };
    if whole < i32::MIN as i128 {
        i32::MIN
    } else if whole > i32::MAX as i128 {
        i32::MAX
    } else {
        whole as i32
    }
}

/// A correction by whole minutes is subtracted as it is, and a shift keeps
/// the order of two minutes.
pub proof fn lemma_shifted_minute(minute: int, later: int, correction: int, whole_minutes: int)
    requires
        minute <= later,
    ensures
        shifted_minute(minute, correction) <= shifted_minute(later, correction),
        i32::MIN <= minute - whole_minutes <= i32::MAX ==> shifted_minute(
            minute,
            whole_minutes * MICRO,
        ) == minute - whole_minutes,
{
    let m = MICRO as int;
    let raw = minute * m - whole_minutes * m;
    let diff = minute - whole_minutes;
    assert(raw == diff * m) by (nonlinear_arith)
        requires
            raw == minute * m - whole_minutes * m,
            diff == minute - whole_minutes,
    ;
    if diff >= 0 {
        assert(raw == m * diff + 0) by (nonlinear_arith)
            requires
                raw == diff * m,
        ;
        assert(raw >= 0) by (nonlinear_arith)
            requires
                raw == diff * m,
                diff >= 0,
                m > 0,
        ;
        vstd::arithmetic::div_mod::lemma_fundamental_div_mod_converse(raw, m, diff, 0);
    } else {
        assert(-raw == m * (-diff) + 0) by (nonlinear_arith)
            requires
                raw == diff * m,
        ;
        assert(raw < 0) by (nonlinear_arith)
            requires
                raw == diff * m,
                diff < 0,
                m > 0,
        ;
        vstd::arithmetic::div_mod::lemma_fundamental_div_mod_converse(-raw, m, -diff, 0);
    }
    let a = minute * m - correction;
    let b = later * m - correction;
    assert(a <= b) by (nonlinear_arith)
        requires
            a == minute * m - correction,
            b == later * m - correction,
            minute <= later,
            m > 0,
    ;
    lemma_div_bounds(a, m);
    lemma_div_bounds(b, m);
    lemma_div_bounds(-a, m);
    lemma_div_bounds(-b, m);
    if a >= 0 {
        assert(a / m <= b / m) by {
            vstd::arithmetic::div_mod::lemma_div_is_ordered(a, b, m);
        }
    } else if b < 0 {
        assert((-b) / m <= (-a) / m) by {
            vstd::arithmetic::div_mod::lemma_div_is_ordered(-b, -a, m);
        }
    }
}

/// The number of whole sampling intervals in a day. For a negative interval
/// it is the negated number for the interval's size.
pub fn intervals_per_day(interval_minutes: i32) -> (n: i32)
    requires
        interval_minutes != 0,
    ensures
        interval_minutes > 0 ==> n == slots_per_day(interval_minutes as int),
        interval_minutes < 0 ==> n == -slots_per_day(-(interval_minutes as int)),
{
    if interval_minutes > 0 {
        1440 / interval_minutes
    } else {
        (-(1440 / -(interval_minutes as i64))) as i32
    }
}

/// The sampled part of a day, or `None` where no minute is sampled.
pub fn sample_window(config: &LookupTableConfig, ss: SunriseSunset) -> (window: Option<SampleWindow>)
    requires
        config.interval_minutes > 0,
    ensures
        window is None <==> slot_count(*config, ss) == 0,
        window matches Some(w) ==> {
            &&& w.first_minute == sampled_minute(*config, ss, 0)
            &&& w.last_minute == sampled_minute(*config, ss, slot_count(*config, ss) - 1)
            &&& 0 <= w.first_minute <= w.last_minute <= LAST_MINUTE
        },
{
    let interval: i64 = config.interval_minutes as i64;
    let raw_start: i64 = ss.sunrise as i64 - config.sunrise_buffer_minutes as i64;
    let raw_end: i64 = ss.sunset as i64 + config.sunset_buffer_minutes as i64;
    let start: i64 = if raw_start < 0 {
        0
    } else {
        raw_start
    };
    let end: i64 = if raw_end > LAST_MINUTE as i64 {
        LAST_MINUTE as i64
    } else {
        raw_end
    };
    proof {
        lemma_div_bounds(start + interval - 1, interval as int);
        lemma_div_bounds(end as int, interval as int);
        lemma_div_bounds(MINUTES_PER_DAY as int, interval as int);
    }
    if end < 0 {
        return None;
    }
    let first: i64 = (start + interval - 1) / interval;
    let by_end: i64 = end / interval;
    let by_day: i64 = intervals_per_day(config.interval_minutes) as i64 - 1;
    let last: i64 = if by_end < by_day {
        by_end
    } else {
        by_day
    };
    if last < first {
        return None;
    }
    proof {
        lemma_sampled_minutes(*config, ss, 0);
        lemma_sampled_minutes(*config, ss, slot_count(*config, ss) - 1);
        assert(first * interval <= last * interval) by (nonlinear_arith)
            requires
                first <= last,
                interval > 0,
        ;
    }
    Some(SampleWindow { first_minute: (first * interval) as i32, last_minute: (last * interval) as i32 })
}

} // verus!
