//! Single-axis tables: generation, interpolated lookup and compact export.

use vstd::prelude::*;
use crate::bracket::{
    bracket_of, candidate_index, covers, find_bracketing_entries, lemma_candidate_brackets,
    lemma_sampled_minute_bracket,
};
use crate::calendar::{days_in_year, is_leap};
use crate::generate::{generate_table, in_daylight, row_built, rows_consistent};
use crate::interpolation::{interpolate_linear, interpolated_linear, lemma_step_bounded};
use crate::timestamp::timestamp_text;
use crate::types::{
    entries_in, lemma_entries_in_positive, DayData, LookupTableConfig, SingleAxisEntry,
    SingleAxisTable, SunriseSunset, LAST_MINUTE,
};
use crate::window::{lemma_sampled_minutes, sampled_minute, slot_count};

verus! {

/// Bytes that one entry of a single-axis table is taken to weigh.
pub const SINGLE_AXIS_ENTRY_BYTES: u32 = 4;

/// `row` is the single-axis row of day `doy` with sunrise and sunset `ss`:
/// an entry for each sampled minute, in ascending order; a minute in
/// daylight has a rotation that `rotation` gives for it, and a minute of
/// the buffers has none.
pub open spec fn single_axis_row_of<R: Fn(i32, i32) -> i64>(
    config: LookupTableConfig,
    rotation: R,
    row: DayData<SingleAxisEntry>,
    doy: int,
    ss: SunriseSunset,
) -> bool {
    &&& row.day_of_year == doy
    &&& row.sunrise_minutes == ss.sunrise
    &&& row.sunset_minutes == ss.sunset
    &&& row.entries.len() == slot_count(config, ss)
    &&& forall|k: int|
        0 <= k < row.entries.len() ==> {
            let e = #[trigger] row.entries[k];
            let minute = sampled_minute(config, ss, k);
            &&& e.minutes == minute
            &&& in_daylight(ss, minute) ==> e.rotation is Some && call_ensures(
                rotation,
                (doy as i32, minute as i32),
                e.rotation->0,
            )
            &&& !in_daylight(ss, minute) ==> e.rotation is None
        }
}

/// `table` is the single-axis table of `config` over the geometry given by
/// `daylight` and `rotation`.
pub open spec fn single_axis_table_of<D: Fn(i32) -> SunriseSunset, R: Fn(i32, i32) -> i64>(
    config: LookupTableConfig,
    daylight: D,
    rotation: R,
    table: SingleAxisTable,
) -> bool {
    &&& table.config == config
    &&& table.days.len() == days_in_year(config.year as int)
    &&& forall|d: int|
        0 <= d < table.days.len() ==> {
            let row = #[trigger] table.days[d];
            let ss = SunriseSunset { sunrise: row.sunrise_minutes, sunset: row.sunset_minutes };
            &&& call_ensures(daylight, ((d + 1) as i32,), ss)
            &&& single_axis_row_of(config, rotation, row, d + 1, ss)
        }
    &&& table.metadata.total_entries == entries_in(table.days@, table.days.len() as int)
    &&& table.metadata.storage_estimate_bytes == table.metadata.total_entries
        * SINGLE_AXIS_ENTRY_BYTES
}

/// Generates the single-axis table of `config`.
///
/// `daylight` reports the sunrise and sunset of a day of the year, in the
/// time frame of the table's minutes. `rotation` gives the tracker's
/// rotation at a minute of a day, in millionths of a degree; it is asked
/// for the minutes in daylight only. `generated_at` is the instant the
/// table is stamped with, in seconds since the start of 1970.
pub fn generate_single_axis_table<D: Fn(i32) -> SunriseSunset, R: Fn(i32, i32) -> i64>(
    config: &LookupTableConfig,
    daylight: D,
    rotation: R,
    generated_at: u64,
) -> (table: SingleAxisTable)
    requires
        config.interval_minutes > 0,
        forall|doy: i32| 1 <= doy <= 366 ==> call_requires(daylight, (doy,)),
        forall|doy: i32, minute: i32|
            1 <= doy <= 366 && 0 <= minute <= LAST_MINUTE ==> call_requires(rotation, (doy, minute)),
    ensures
        single_axis_table_of(*config, daylight, rotation, table),
        table.well_formed(),
        rows_consistent(table),
        table.metadata.generated_at@ == timestamp_text(generated_at as nat),
{
    let rotation_at = &rotation;
    let entry_fn = |doy: i32, minutes: i32, is_daylight: bool| -> (e: SingleAxisEntry)
        requires
            1 <= doy <= 366,
            0 <= minutes <= LAST_MINUTE,
        ensures
            e.minutes == minutes,
            is_daylight ==> e.rotation is Some && call_ensures(
                *rotation_at,
                (doy, minutes),
                e.rotation->0,
            ),
            !is_daylight ==> e.rotation is None,
        {
            let rotation = if is_daylight {
                Some(rotation_at(doy, minutes))
            } else {
                None
            };
            SingleAxisEntry { minutes, rotation }
        };
    let table = generate_table(config, daylight, entry_fn, SINGLE_AXIS_ENTRY_BYTES, generated_at);
    proof {
        assert forall|d: int| 0 <= d < table.days.len() implies {
            let row = #[trigger] table.days[d];
            let ss = SunriseSunset { sunrise: row.sunrise_minutes, sunset: row.sunset_minutes };
            single_axis_row_of(*config, rotation, row, d + 1, ss)
        } by {
            let row = table.days[d];
            let ss = SunriseSunset { sunrise: row.sunrise_minutes, sunset: row.sunset_minutes };
            assert(row_built(*config, entry_fn, row, d + 1, ss));
            assert forall|k: int| 0 <= k < row.entries.len() implies {
                let e = #[trigger] row.entries[k];
                let minute = sampled_minute(*config, ss, k);
                &&& e.minutes == minute
                &&& in_daylight(ss, minute) ==> e.rotation is Some && call_ensures(
                    rotation,
                    ((d + 1) as i32, minute as i32),
                    e.rotation->0,
                )
                &&& !in_daylight(ss, minute) ==> e.rotation is None
            } by {
                lemma_sampled_minutes(*config, ss, k);
            }
        }
    }
    table
}

/// A single-axis table has a row for each day of its year, 365 or 366 of
/// them, and where any row has an entry, its entry count and its storage
/// estimate are positive.
pub proof fn lemma_single_axis_table_complete<D: Fn(i32) -> SunriseSunset, R: Fn(i32, i32) -> i64>(
    config: LookupTableConfig,
    daylight: D,
    rotation: R,
    table: SingleAxisTable,
)
    requires
        single_axis_table_of(config, daylight, rotation, table),
    ensures
        is_leap(config.year as int) ==> table.days.len() == 366,
        !is_leap(config.year as int) ==> table.days.len() == 365,
        (exists|d: int| 0 <= d < table.days.len() && (#[trigger] table.days[d]).entries.len() > 0)
            ==> table.metadata.total_entries > 0 && table.metadata.storage_estimate_bytes > 0,
{
    if exists|d: int| 0 <= d < table.days.len() && (#[trigger] table.days[d]).entries.len() > 0 {
        let d = choose|d: int| 0 <= d < table.days.len() && (#[trigger] table.days[d]).entries.len() > 0;
        lemma_entries_in_positive(table.days@, table.days.len() as int, d);
    }
}

/// What a single-axis table holds for a day and minute: nothing where the
/// day is not a row of the table or the row does not cover the minute; the
/// row's entry verbatim where the minute is sampled; else the entry of that
/// minute whose rotation is interpolated along the line between the
/// bracketing entries.
pub open spec fn single_axis_at(table: SingleAxisTable, day_of_year: int, minutes: int) -> Option<
    SingleAxisEntry,
> {
    if 1 <= day_of_year <= table.days.len() {
        let row = table.days[day_of_year - 1];
        match bracket_of(row, table.config.interval_minutes as int, minutes) {
            None => None,
            Some(b) => {
                let before = row.entries[b.before as int];
                Some(
                    SingleAxisEntry {
                        minutes: minutes as i32,
                        rotation: match b.after {
                            None => before.rotation,
                            Some(next) => interpolated_linear(
                                before.rotation,
                                row.entries[next as int].rotation,
                                b.fraction,
                            ),
                        },
                    },
                )
            },
        }
    } else {
        None
    }
}

/// Looks up the rotation at a minute of a day, interpolating between the
/// sampled entries. `None` where the table has no row for the day, or the
/// row does not cover the minute.
pub fn lookup_single_axis(table: &SingleAxisTable, day_of_year: i32, minutes: i32) -> (r: Option<
    SingleAxisEntry,
>)
    requires
        table.well_formed(),
    ensures
        r == single_axis_at(*table, day_of_year as int, minutes as int),
        r is Some <==> 1 <= day_of_year <= table.days.len() && covers(
            table.days[day_of_year - 1],
            minutes as int,
        ),
{
    if day_of_year < 1 || day_of_year as usize > table.days.len() {
        return None;
    }
    let row = &table.days[(day_of_year - 1) as usize];
    match find_bracketing_entries(row, table.config.interval_minutes, minutes) {
        None => None,
        Some(b) => {
            let before = &row.entries[b.before];
            let rotation = match b.after {
                None => before.rotation,
                Some(next) => interpolate_linear(before.rotation, row.entries[next].rotation, b.fraction),
            };
            Some(SingleAxisEntry { minutes, rotation })
        },
    }
}

/// A query for the minute of a sampled entry gives that entry back.
pub proof fn lemma_lookup_single_axis_sampled(table: SingleAxisTable, day_of_year: int, k: int)
    requires
        table.well_formed(),
        1 <= day_of_year <= table.days.len(),
        0 <= k < table.days[day_of_year - 1].entries.len(),
    ensures
        single_axis_at(
            table,
            day_of_year,
            table.days[day_of_year - 1].entries[k].minutes as int,
        ) == Some(table.days[day_of_year - 1].entries[k]),
{
    let row = table.days[day_of_year - 1];
    lemma_sampled_minute_bracket(row, table.config.interval_minutes as int, k);
    assert(row.minute_at(k) == row.entries[k].minutes);
}

/// A query for a minute that the row covers and does not sample is
/// answered from the two entries round it: where both have a rotation, the
/// answer has one that lies between the two, and else it has none.
pub proof fn lemma_lookup_single_axis_between(table: SingleAxisTable, day_of_year: int, minutes: int)
    requires
        table.well_formed(),
        1 <= day_of_year <= table.days.len(),
        covers(table.days[day_of_year - 1], minutes),
    ensures
        ({
            let row = table.days[day_of_year - 1];
            let i = candidate_index(row, table.config.interval_minutes as int, minutes);
            let found = single_axis_at(table, day_of_year, minutes);
            &&& 0 <= i < row.entries.len()
            &&& row.entries[i].minutes <= minutes
            &&& found is Some
            &&& found->0.minutes == minutes
            &&& minutes != row.entries[i].minutes ==> {
                &&& i + 1 < row.entries.len()
                &&& minutes < row.entries[i + 1].minutes
                &&& match (row.entries[i].rotation, row.entries[i + 1].rotation) {
                    (Some(a), Some(b)) => found->0.rotation matches Some(v) && (a <= v <= b || b <= v
                        <= a),
                    _ => found->0.rotation is None,
                }
            }
        }),
{
    let row = table.days[day_of_year - 1];
    let interval = table.config.interval_minutes as int;
    let i = candidate_index(row, interval, minutes);
    lemma_candidate_brackets(row, interval, minutes);
    assert(row.minute_at(i) == row.entries[i].minutes);
    if minutes != row.entries[i].minutes {
        assert(row.minute_at(i + 1) == row.entries[i + 1].minutes);
        let fraction = bracket_of(row, interval, minutes)->0.fraction;
        match (row.entries[i].rotation, row.entries[i + 1].rotation) {
            (Some(a), Some(b)) => {
                lemma_step_bounded(a as int, b as int, fraction);
            },
            _ => {},
        }
    }
}

/// Flattens a single-axis table: for each day, in order, the rotations of
/// its entries, in order.
pub fn single_axis_table_to_compact(table: &SingleAxisTable) -> (compact: Vec<Vec<Option<i64>>>)
    ensures
        compact.len() == table.days.len(),
        forall|d: int|
            0 <= d < table.days.len() ==> (#[trigger] compact[d]).len()
                == table.days[d].entries.len(),
        forall|d: int, k: int|
            0 <= d < table.days.len() && 0 <= k < table.days[d].entries.len()
                ==> #[trigger] compact[d][k] == table.days[d].entries[k].rotation,
{
    let mut compact: Vec<Vec<Option<i64>>> = Vec::new();
    let mut d: usize = 0;
    while d < table.days.len()
        invariant
            0 <= d <= table.days.len(),
            compact.len() == d,
            forall|i: int| 0 <= i < d ==> (#[trigger] compact[i]).len() == table.days[i].entries.len(),
            forall|i: int, k: int|
                0 <= i < d && 0 <= k < table.days[i].entries.len() ==> #[trigger] compact[i][k]
                    == table.days[i].entries[k].rotation,
        decreases table.days.len() - d,
    {
        let entries = &table.days[d].entries;
        let mut values: Vec<Option<i64>> = Vec::new();
        let mut k: usize = 0;
        while k < entries.len()
            invariant
                0 <= k <= entries.len(),
                values.len() == k,
                forall|j: int| 0 <= j < k ==> #[trigger] values[j] == entries[j].rotation,
            decreases entries.len() - k,
        {
            values.push(entries[k].rotation);
            k = k + 1;
        }
        compact.push(values);
        d = d + 1;
    }
    compact
}

} // verus!
