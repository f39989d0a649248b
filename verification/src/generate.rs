//! Table generation over a pluggable solar geometry.
//!
//! The geometry is handed in as functions: one that reports each day's
//! sunrise and sunset in the table's time frame, and one that builds the
//! entry of a sampled minute. The generator owns the calendar walk, the
//! sampling window and the daylight test.

use vstd::prelude::*;
use crate::calendar::{days_in_year, leap_year};
use crate::timestamp::{format_utc_timestamp, timestamp_text};
use crate::types::{
    entries_in, lemma_entries_in_prefix, lemma_evenly_sampled_increasing, DayData, HasMinutes,
    LookupTable, LookupTableConfig, SunriseSunset, TableMetadata, LAST_MINUTE, MINUTES_PER_DAY,
};
use crate::window::{first_slot, lemma_sampled_minutes, sample_window, sampled_minute, slot_count};

verus! {

/// `minute` lies between sunrise and sunset, both included.
pub open spec fn in_daylight(ss: SunriseSunset, minute: int) -> bool {
    ss.sunrise <= minute <= ss.sunset
}

/// What an entry builder must promise: it can be asked for every minute of
/// every day of a year, the entry it returns is stamped with the minute it
/// was asked for, and carries its angles exactly when it was told that the
/// minute is in daylight.
pub open spec fn builds_entries<E: HasMinutes, F: Fn(i32, i32, bool) -> E>(entry_fn: F) -> bool {
    &&& forall|doy: i32, minute: i32, lit: bool|
        1 <= doy <= 366 && 0 <= minute <= LAST_MINUTE ==> call_requires(
            entry_fn,
            (doy, minute, lit),
        )
    &&& forall|doy: i32, minute: i32, lit: bool, e: E| #[trigger]
        call_ensures(entry_fn, (doy, minute, lit), e) ==> {
            &&& e.spec_minutes() == minute
            &&& lit ==> e.has_angles()
            &&& !lit ==> e.lacks_angles()
        }
}

/// `row` is the row of day `doy` with sunrise and sunset `ss`: one entry
/// for each sampled minute, in ascending order, each built by `entry_fn`
/// from the day, the minute and whether the minute is in daylight.
pub open spec fn row_built<E: HasMinutes, F: Fn(i32, i32, bool) -> E>(
    config: LookupTableConfig,
    entry_fn: F,
    row: DayData<E>,
    doy: int,
    ss: SunriseSunset,
) -> bool {
    &&& row.day_of_year == doy
    &&& row.sunrise_minutes == ss.sunrise
    &&& row.sunset_minutes == ss.sunset
    &&& row.entries.len() == slot_count(config, ss)
    &&& forall|k: int|
        0 <= k < row.entries.len() ==> call_ensures(
            entry_fn,
            (
                doy as i32,
                sampled_minute(config, ss, k) as i32,
                in_daylight(ss, sampled_minute(config, ss, k)),
            ),
            #[trigger] row.entries[k],
        )
}

/// A row built by a well-behaved entry builder is evenly sampled, strictly
/// increasing, and consistent with its daylight interval.
pub proof fn lemma_row_built<E: HasMinutes, F: Fn(i32, i32, bool) -> E>(
    config: LookupTableConfig,
    entry_fn: F,
    row: DayData<E>,
    doy: int,
    ss: SunriseSunset,
)
    requires
        config.interval_minutes > 0,
        builds_entries(entry_fn),
        row_built(config, entry_fn, row, doy, ss),
    ensures
        forall|k: int| 0 <= k < row.entries.len() ==> #[trigger] row.minute_at(k) == sampled_minute(config, ss, k),
        row.evenly_sampled(config.interval_minutes as int),
        row.strictly_increasing(),
        row.daylight_consistent(),
{
    let d = config.interval_minutes as int;
    assert forall|k: int| 0 <= k < row.entries.len() implies {
        &&& #[trigger] row.minute_at(k) == sampled_minute(config, ss, k)
        &&& 0 <= sampled_minute(config, ss, k) <= LAST_MINUTE
        &&& sampled_minute(config, ss, k) == sampled_minute(config, ss, 0) + k * d
    } by {
        lemma_sampled_minutes(config, ss, k);
        let e = row.entries[k];
        assert(call_ensures(
            entry_fn,
            (
                doy as i32,
                sampled_minute(config, ss, k) as i32,
                in_daylight(ss, sampled_minute(config, ss, k)),
            ),
            e,
        ));
    }
    if row.entries.len() > 0 {
        lemma_sampled_minutes(config, ss, 0);
        assert(row.minute_at(0) == sampled_minute(config, ss, 0));
    }
    lemma_evenly_sampled_increasing(row, d);
    assert forall|k: int| 0 <= k < row.entries.len() implies {
        let e = #[trigger] row.entries[k];
        let lit = row.sunrise_minutes <= e.spec_minutes() <= row.sunset_minutes;
        &&& lit ==> e.has_angles()
        &&& !lit ==> e.lacks_angles()
    } by {
        assert(row.minute_at(k) == sampled_minute(config, ss, k));
        let e = row.entries[k];
        assert(call_ensures(
            entry_fn,
            (
                doy as i32,
                sampled_minute(config, ss, k) as i32,
                in_daylight(ss, sampled_minute(config, ss, k)),
            ),
            e,
        ));
    }
}

/// Builds the row of one day: an entry for each sampled minute of the
/// window round `ss`, in ascending order.
pub fn generate_day<E: HasMinutes, F: Fn(i32, i32, bool) -> E>(
    config: &LookupTableConfig,
    doy: i32,
    ss: SunriseSunset,
    entry_fn: &F,
) -> (row: DayData<E>)
    requires
        config.interval_minutes > 0,
        1 <= doy <= 366,
        builds_entries(*entry_fn),
    ensures
        row_built(*config, *entry_fn, row, doy as int, ss),
        row.evenly_sampled(config.interval_minutes as int),
        row.strictly_increasing(),
        row.daylight_consistent(),
        row.entries.len() <= MINUTES_PER_DAY,
{
    let mut entries: Vec<E> = Vec::new();
    if let Some(w) = sample_window(config, ss) {
        let ghost count = slot_count(*config, ss);
        let ghost first = first_slot(*config, ss);
        let ghost d = config.interval_minutes as int;
        let mut minute: i64 = w.first_minute as i64;
        while minute <= w.last_minute as i64
            invariant
                d == config.interval_minutes > 0,
                1 <= doy <= 366,
                builds_entries(*entry_fn),
                count == slot_count(*config, ss),
                first == first_slot(*config, ss),
                w.last_minute == sampled_minute(*config, ss, count - 1),
                0 <= w.last_minute <= LAST_MINUTE,
                0 <= entries.len() <= count,
                minute == sampled_minute(*config, ss, entries.len() as int),
                0 <= minute,
                forall|k: int|
                    0 <= k < entries.len() ==> call_ensures(
                        *entry_fn,
                        (
                            doy,
                            sampled_minute(*config, ss, k) as i32,
                            in_daylight(ss, sampled_minute(*config, ss, k)),
                        ),
                        #[trigger] entries[k],
                    ),
            decreases count - entries.len(),
        {
            proof {
                let n = entries.len() as int;
                if n >= count {
                    assert((first + n) * d >= (first + count - 1) * d + d) by (nonlinear_arith)
                        requires
                            n >= count,
                            d > 0,
                    ;
                }
                assert((first + n + 1) * d == (first + n) * d + d) by (nonlinear_arith);
            }
            let lit = ss.sunrise as i64 <= minute && minute <= ss.sunset as i64;
            let entry = entry_fn(doy, minute as i32, lit);
            entries.push(entry);
            minute = minute + config.interval_minutes as i64;
        }
        proof {
            let n = entries.len() as int;
            if n < count {
                assert((first + n) * d <= (first + count - 1) * d) by (nonlinear_arith)
                    requires
                        n <= count - 1,
                        d > 0,
                ;
            }
        }
    }
    let row = DayData {
        day_of_year: doy,
        sunrise_minutes: ss.sunrise,
        sunset_minutes: ss.sunset,
        entries,
    };
    proof {
        lemma_row_built(*config, *entry_fn, row, doy as int, ss);
        if row.entries.len() > 0 {
            let d = config.interval_minutes as int;
            let n = row.entries.len() as int;
            assert((n - 1) * d >= n - 1) by (nonlinear_arith)
                requires
                    n >= 1,
                    d >= 1,
            ;
            assert(row.minute_at(n - 1) == row.minute_at(0) + (n - 1) * d);
        }
    }
    row
}

/// `table` is the table of `config`: a row for each day of the year, in
/// calendar order, each with the sunrise and sunset that `daylight` reports
/// for its day and the entries that `entry_fn` builds for its sampled
/// minutes, and the entry count summed over the rows.
pub open spec fn table_built<E: HasMinutes, D: Fn(i32) -> SunriseSunset, F: Fn(i32, i32, bool) -> E>(
    config: LookupTableConfig,
    daylight: D,
    entry_fn: F,
    table: LookupTable<E>,
) -> bool {
    &&& table.config == config
    &&& table.days.len() == days_in_year(config.year as int)
    &&& forall|d: int|
        0 <= d < table.days.len() ==> {
            let row = #[trigger] table.days[d];
            let ss = SunriseSunset { sunrise: row.sunrise_minutes, sunset: row.sunset_minutes };
            &&& call_ensures(daylight, ((d + 1) as i32,), ss)
            &&& row_built(config, entry_fn, row, d + 1, ss)
        }
    &&& table.metadata.total_entries == entries_in(table.days@, table.days.len() as int)
}

/// Every row of the table has its entries in strictly ascending order of
/// minute, and an entry carries its angles exactly when its minute lies
/// between the row's sunrise and sunset.
pub open spec fn rows_consistent<E: HasMinutes>(table: LookupTable<E>) -> bool {
    forall|d: int|
        0 <= d < table.days.len() ==> {
            &&& (#[trigger] table.days[d]).strictly_increasing()
            &&& table.days[d].daylight_consistent()
        }
}

/// Generates the table of `config`.
///
/// `daylight` reports the sunrise and sunset of a day of the year, in the
/// time frame that the table's minutes are kept in. `entry_fn` builds the
/// entry of a day and minute, and is told whether the minute is in
/// daylight. `bytes_per_entry` is what one entry is taken to weigh in the
/// storage estimate, and `generated_at` is the instant the table is
/// stamped with, in seconds since the start of 1970.
///
/// A day whose window holds no sampled minute gets a row without entries.
pub fn generate_table<E: HasMinutes, D: Fn(i32) -> SunriseSunset, F: Fn(i32, i32, bool) -> E>(
    config: &LookupTableConfig,
    daylight: D,
    entry_fn: F,
    bytes_per_entry: u32,
    generated_at: u64,
) -> (table: LookupTable<E>)
    requires
        config.interval_minutes > 0,
        forall|doy: i32| 1 <= doy <= 366 ==> call_requires(daylight, (doy,)),
        builds_entries(entry_fn),
    ensures
        table_built(*config, daylight, entry_fn, table),
        table.well_formed(),
        rows_consistent(table),
        table.metadata.storage_estimate_bytes == table.metadata.total_entries * bytes_per_entry,
        table.metadata.generated_at@ == timestamp_text(generated_at as nat),
{
    let n_days: i32 = if leap_year(config.year) {
        366
    } else {
        365
    };
    let mut days: Vec<DayData<E>> = Vec::new();
    let mut total_entries: usize = 0;
    let mut doy: i32 = 1;
    while doy <= n_days
        invariant
            config.interval_minutes > 0,
            forall|doy: i32| 1 <= doy <= 366 ==> call_requires(daylight, (doy,)),
            builds_entries(entry_fn),
            n_days == days_in_year(config.year as int),
            1 <= doy <= n_days + 1,
            days.len() == doy - 1,
            total_entries == entries_in(days@, days.len() as int),
            total_entries <= MINUTES_PER_DAY * (doy - 1),
            forall|d: int|
                0 <= d < days.len() ==> {
                    let row = #[trigger] days[d];
                    let ss = SunriseSunset { sunrise: row.sunrise_minutes, sunset: row.sunset_minutes };
                    &&& call_ensures(daylight, ((d + 1) as i32,), ss)
                    &&& row_built(*config, entry_fn, row, d + 1, ss)
                    &&& row.evenly_sampled(config.interval_minutes as int)
                    &&& row.strictly_increasing()
                    &&& row.daylight_consistent()
                },
        decreases n_days + 1 - doy,
    {
        let ss = daylight(doy);
        let row = generate_day(config, doy, ss, &entry_fn);
        let ghost before = days@;
        total_entries = total_entries + row.entries.len();
        days.push(row);
        proof {
            lemma_entries_in_prefix(before, days@, before.len() as int);
        }
        doy = doy + 1;
    }
    assert(total_entries * bytes_per_entry <= 527_040 * 0xffff_ffff) by (nonlinear_arith)
        requires
            0 <= total_entries <= 527_040,
            0 <= bytes_per_entry <= 0xffff_ffff,
    ;
    let storage_estimate_bytes: u64 = total_entries as u64 * bytes_per_entry as u64;
    LookupTable {
        config: *config,
        days,
        metadata: TableMetadata {
            generated_at: format_utc_timestamp(generated_at),
            total_entries,
            storage_estimate_bytes,
        },
    }
}

} // verus!
