//! Dual-axis tables: generation, interpolated lookup and compact export.

use vstd::prelude::*;
use crate::angles::{dual_axis_angles, dual_axis_angles_of, normalized};
use crate::bracket::{
    bracket_of, candidate_index, covers, find_bracketing_entries, lemma_candidate_brackets,
    lemma_sampled_minute_bracket,
};
use crate::calendar::{days_in_year, is_leap};
use crate::generate::{generate_table, in_daylight, row_built, rows_consistent};
use crate::interpolation::{
    interpolate_angle, interpolate_linear, interpolated_angle, interpolated_linear,
    lemma_angle_on_shortest_arc, lemma_step_bounded, shortest_arc, step_towards, Fraction,
};
use crate::timestamp::timestamp_text;
use crate::types::{
    entries_in, lemma_entries_in_positive, DayData, DualAxisEntry, DualAxisTable,
    LookupTableConfig, SolarPosition, SunriseSunset, FULL_TURN, HALF_TURN, LAST_MINUTE,
};
use crate::window::{lemma_sampled_minutes, sampled_minute, slot_count};

verus! {

/// Bytes that one entry of a dual-axis table is taken to weigh.
pub const DUAL_AXIS_ENTRY_BYTES: u32 = 8;

/// The entry `e` holds the dual-axis angles of a position that `position`
/// gives for the minute of the day.
pub open spec fn faces_sun<P: Fn(i32, i32) -> SolarPosition>(
    position: P,
    doy: i32,
    minute: i32,
    e: DualAxisEntry,
) -> bool {
    exists|pos: SolarPosition|
        {
            &&& #[trigger] call_ensures(position, (doy, minute), pos)
            &&& e.tilt == Some(dual_axis_angles_of(pos).tilt)
            &&& e.panel_azimuth == Some(dual_axis_angles_of(pos).panel_azimuth)
        }
}

/// `row` is the dual-axis row of day `doy` with sunrise and sunset `ss`: an
/// entry for each sampled minute, in ascending order; a minute in daylight
/// has the tilt and panel azimuth that face the sun where `position` puts
/// it, and a minute of the buffers has neither.
pub open spec fn dual_axis_row_of<P: Fn(i32, i32) -> SolarPosition>(
    config: LookupTableConfig,
    position: P,
    row: DayData<DualAxisEntry>,
    doy: int,
    ss: SunriseSunset,
) -> bool {
    &&& row.day_of_year == doy
    &&& row.sunrise_minutes == ss.sunrise
    &&& row.sunset_minutes == ss.sunset
    &&& row.entries.len() == slot_count(config, ss)
    &&& forall|k: int|
        0 <= k < row.entries.len() ==> {
            let e = #[trigger] row.entries[k];
            let minute = sampled_minute(config, ss, k);
            &&& e.minutes == minute
            &&& in_daylight(ss, minute) ==> faces_sun(position, doy as i32, minute as i32, e)
            &&& !in_daylight(ss, minute) ==> e.tilt is None && e.panel_azimuth is None
        }
}

/// `table` is the dual-axis table of `config` over the geometry given by
/// `daylight` and `position`.
pub open spec fn dual_axis_table_of<D: Fn(i32) -> SunriseSunset, P: Fn(i32, i32) -> SolarPosition>(
    config: LookupTableConfig,
    daylight: D,
    position: P,
    table: DualAxisTable,
) -> bool {
    &&& table.config == config
    &&& table.days.len() == days_in_year(config.year as int)
    &&& forall|d: int|
        0 <= d < table.days.len() ==> {
            let row = #[trigger] table.days[d];
            let ss = SunriseSunset { sunrise: row.sunrise_minutes, sunset: row.sunset_minutes };
            &&& call_ensures(daylight, ((d + 1) as i32,), ss)
            &&& dual_axis_row_of(config, position, row, d + 1, ss)
        }
    &&& table.metadata.total_entries == entries_in(table.days@, table.days.len() as int)
    &&& table.metadata.storage_estimate_bytes == table.metadata.total_entries
        * DUAL_AXIS_ENTRY_BYTES
}

/// Every panel azimuth of the table is in `[0, 360)` degrees.
pub open spec fn azimuths_normalized(table: DualAxisTable) -> bool {
    forall|d: int, k: int|
        0 <= d < table.days.len() && 0 <= k < table.days[d].entries.len() ==> (
        #[trigger] table.days[d].entries[k].panel_azimuth matches Some(a) ==> 0 <= a < FULL_TURN)
}

/// Generates the dual-axis table of `config`.
///
/// `daylight` reports the sunrise and sunset of a day of the year, in the
/// time frame of the table's minutes. `position` gives the sun's position
/// at a minute of a day; it is asked for the minutes in daylight only.
/// `generated_at` is the instant the table is stamped with, in seconds
/// since the start of 1970.
pub fn generate_dual_axis_table<D: Fn(i32) -> SunriseSunset, P: Fn(i32, i32) -> SolarPosition>(
    config: &LookupTableConfig,
    daylight: D,
    position: P,
    generated_at: u64,
) -> (table: DualAxisTable)
    requires
        config.interval_minutes > 0,
        forall|doy: i32| 1 <= doy <= 366 ==> call_requires(daylight, (doy,)),
        forall|doy: i32, minute: i32|
            1 <= doy <= 366 && 0 <= minute <= LAST_MINUTE ==> call_requires(position, (doy, minute)),
    ensures
        dual_axis_table_of(*config, daylight, position, table),
        table.well_formed(),
        rows_consistent(table),
        azimuths_normalized(table),
        table.metadata.generated_at@ == timestamp_text(generated_at as nat),
{
    let position_at = &position;
    let entry_fn = |doy: i32, minutes: i32, is_daylight: bool| -> (e: DualAxisEntry)
        requires
            1 <= doy <= 366,
            0 <= minutes <= LAST_MINUTE,
        ensures
            e.minutes == minutes,
            is_daylight ==> faces_sun(*position_at, doy, minutes, e),
            is_daylight ==> e.tilt is Some && e.panel_azimuth is Some,
            !is_daylight ==> e.tilt is None && e.panel_azimuth is None,
            e.panel_azimuth matches Some(a) ==> 0 <= a < FULL_TURN,
        {
            if is_daylight {
                let pos = position_at(doy, minutes);
                let da = dual_axis_angles(&pos);
                DualAxisEntry {
                    minutes,
                    tilt: Some(da.tilt),
                    panel_azimuth: Some(da.panel_azimuth),
                }
            } else {
                DualAxisEntry { minutes, tilt: None, panel_azimuth: None }
            }
        };
    let table = generate_table(config, daylight, entry_fn, DUAL_AXIS_ENTRY_BYTES, generated_at);
    proof {
        assert forall|d: int| 0 <= d < table.days.len() implies {
            let row = #[trigger] table.days[d];
            let ss = SunriseSunset { sunrise: row.sunrise_minutes, sunset: row.sunset_minutes };
            &&& dual_axis_row_of(*config, position, row, d + 1, ss)
            &&& forall|k: int|
                0 <= k < row.entries.len() ==> (#[trigger] row.entries[k].panel_azimuth matches Some(
                    a,
                ) ==> 0 <= a < FULL_TURN)
        } by {
            let row = table.days[d];
            let ss = SunriseSunset { sunrise: row.sunrise_minutes, sunset: row.sunset_minutes };
            assert(row_built(*config, entry_fn, row, d + 1, ss));
            assert forall|k: int| 0 <= k < row.entries.len() implies {
                let e = #[trigger] row.entries[k];
                let minute = sampled_minute(*config, ss, k);
                &&& e.minutes == minute
                &&& in_daylight(ss, minute) ==> faces_sun(position, (d + 1) as i32, minute as i32, e)
                &&& !in_daylight(ss, minute) ==> e.tilt is None && e.panel_azimuth is None
                &&& e.panel_azimuth matches Some(a) ==> 0 <= a < FULL_TURN
            } by {
                lemma_sampled_minutes(*config, ss, k);
            }
        }
    }
    table
}

/// A dual-axis table has a row for each day of its year, 365 or 366 of
/// them, and where any row has an entry, its entry count and its storage
/// estimate are positive.
pub proof fn lemma_dual_axis_table_complete<D: Fn(i32) -> SunriseSunset, P: Fn(i32, i32) -> SolarPosition>(
    config: LookupTableConfig,
    daylight: D,
    position: P,
    table: DualAxisTable,
)
    requires
        dual_axis_table_of(config, daylight, position, table),
    ensures
        is_leap(config.year as int) ==> table.days.len() == 366,
        !is_leap(config.year as int) ==> table.days.len() == 365,
        (exists|d: int| 0 <= d < table.days.len() && (#[trigger] table.days[d]).entries.len() > 0)
            ==> table.metadata.total_entries > 0 && table.metadata.storage_estimate_bytes > 0,
{
    if exists|d: int| 0 <= d < table.days.len() && (#[trigger] table.days[d]).entries.len() > 0 {
        let d = choose|d: int| 0 <= d < table.days.len() && (#[trigger] table.days[d]).entries.len() > 0;
        lemma_entries_in_positive(table.days@, table.days.len() as int, d);
    }
}

/// What a dual-axis table holds for a day and minute: as for a single-axis
/// table, with the tilt interpolated along the line and the panel azimuth
/// along the shortest arc.
pub open spec fn dual_axis_at(table: DualAxisTable, day_of_year: int, minutes: int) -> Option<
    DualAxisEntry,
> {
    if 1 <= day_of_year <= table.days.len() {
        let row = table.days[day_of_year - 1];
        match bracket_of(row, table.config.interval_minutes as int, minutes) {
            None => None,
            Some(b) => {
                let before = row.entries[b.before as int];
                Some(
                    match b.after {
                        None => DualAxisEntry {
                            minutes: minutes as i32,
                            tilt: before.tilt,
                            panel_azimuth: before.panel_azimuth,
                        },
                        Some(next) => DualAxisEntry {
                            minutes: minutes as i32,
                            tilt: interpolated_linear(
                                before.tilt,
                                row.entries[next as int].tilt,
                                b.fraction,
                            ),
                            panel_azimuth: interpolated_angle(
                                before.panel_azimuth,
                                row.entries[next as int].panel_azimuth,
                                b.fraction,
                            ),
                        },
                    },
                )
            },
        }
    } else {
        None
    }
}

/// Looks up the tilt and panel azimuth at a minute of a day, interpolating
/// between the sampled entries. `None` where the table has no row for the
/// day, or the row does not cover the minute.
pub fn lookup_dual_axis(table: &DualAxisTable, day_of_year: i32, minutes: i32) -> (r: Option<
    DualAxisEntry,
>)
    requires
        table.well_formed(),
    ensures
        r == dual_axis_at(*table, day_of_year as int, minutes as int),
        r is Some <==> 1 <= day_of_year <= table.days.len() && covers(
            table.days[day_of_year - 1],
            minutes as int,
        ),
{
    if day_of_year < 1 || day_of_year as usize > table.days.len() {
        return None;
    }
    let row = &table.days[(day_of_year - 1) as usize];
    match find_bracketing_entries(row, table.config.interval_minutes, minutes) {
        None => None,
        Some(b) => {
            let before = &row.entries[b.before];
            match b.after {
                None => Some(
                    DualAxisEntry { minutes, tilt: before.tilt, panel_azimuth: before.panel_azimuth },
                ),
                Some(next) => {
                    let after = &row.entries[next];
                    Some(
                        DualAxisEntry {
                            minutes,
                            tilt: interpolate_linear(before.tilt, after.tilt, b.fraction),
                            panel_azimuth: interpolate_angle(
                                before.panel_azimuth,
                                after.panel_azimuth,
                                b.fraction,
                            ),
                        },
                    )
                },
            }
        },
    }
}

/// A query for the minute of a sampled entry gives that entry back.
pub proof fn lemma_lookup_dual_axis_sampled(table: DualAxisTable, day_of_year: int, k: int)
    requires
        table.well_formed(),
        1 <= day_of_year <= table.days.len(),
        0 <= k < table.days[day_of_year - 1].entries.len(),
    ensures
        dual_axis_at(table, day_of_year, table.days[day_of_year - 1].entries[k].minutes as int)
            == Some(table.days[day_of_year - 1].entries[k]),
{
    let row = table.days[day_of_year - 1];
    lemma_sampled_minute_bracket(row, table.config.interval_minutes as int, k);
    assert(row.minute_at(k) == row.entries[k].minutes);
}

/// A query for a minute that the row covers and does not sample is
/// answered from the two entries round it: where both have a tilt, the
/// answer has one that lies between the two; where both have a panel
/// azimuth in `[0, 360)` degrees, the answer has the first one turned by a
/// part of the shortest arc to the second; and else it has none.
pub proof fn lemma_lookup_dual_axis_between(table: DualAxisTable, day_of_year: int, minutes: int)
    requires
        table.well_formed(),
        azimuths_normalized(table),
        1 <= day_of_year <= table.days.len(),
        covers(table.days[day_of_year - 1], minutes),
    ensures
        ({
            let row = table.days[day_of_year - 1];
            let i = candidate_index(row, table.config.interval_minutes as int, minutes);
            let found = dual_axis_at(table, day_of_year, minutes);
            &&& 0 <= i < row.entries.len()
            &&& row.entries[i].minutes <= minutes
            &&& found is Some
            &&& found->0.minutes == minutes
            &&& minutes != row.entries[i].minutes ==> {
                &&& i + 1 < row.entries.len()
                &&& minutes < row.entries[i + 1].minutes
                &&& match (row.entries[i].tilt, row.entries[i + 1].tilt) {
                    (Some(a), Some(b)) => found->0.tilt matches Some(v) && (a <= v <= b || b <= v <= a),
                    _ => found->0.tilt is None,
                }
                &&& match (row.entries[i].panel_azimuth, row.entries[i + 1].panel_azimuth) {
                    (Some(a), Some(b)) => {
                        let arc = shortest_arc(a as int, b as int);
                        let step = step_towards(
                            0,
                            arc,
                            Fraction {
                                numerator: (minutes - row.entries[i].minutes) as i32,
                                denominator: (row.entries[i + 1].minutes - row.entries[i].minutes) as i32,
                            },
                        );
                        &&& found->0.panel_azimuth == Some(normalized(a + step) as i64)
                        &&& -HALF_TURN <= arc <= HALF_TURN
                        &&& normalized(a + arc) == b
                        &&& 0 <= step <= arc || arc <= step <= 0
                    },
                    _ => found->0.panel_azimuth is None,
                }
            }
        }),
{
    let row = table.days[day_of_year - 1];
    let interval = table.config.interval_minutes as int;
    let i = candidate_index(row, interval, minutes);
    lemma_candidate_brackets(row, interval, minutes);
    assert(row.minute_at(i) == row.entries[i].minutes);
    if minutes != row.entries[i].minutes {
        assert(row.minute_at(i + 1) == row.entries[i + 1].minutes);
        let fraction = bracket_of(row, interval, minutes)->0.fraction;
        match (row.entries[i].tilt, row.entries[i + 1].tilt) {
            (Some(a), Some(b)) => {
                lemma_step_bounded(a as int, b as int, fraction);
            },
            _ => {},
        }
        match (row.entries[i].panel_azimuth, row.entries[i + 1].panel_azimuth) {
            (Some(a), Some(b)) => {
                assert(0 <= a < FULL_TURN && 0 <= b < FULL_TURN) by {
                    let before = table.days[day_of_year - 1].entries[i];
                    let after = table.days[day_of_year - 1].entries[i + 1];
                    assert(before.panel_azimuth == Some(a));
                    assert(after.panel_azimuth == Some(b));
                }
                lemma_angle_on_shortest_arc(a as int, b as int, fraction);
            },
            _ => {},
        }
    }
}

/// Flattens a dual-axis table: for each day, in order, the tilt and panel
/// azimuth of its entries, in order.
pub fn dual_axis_table_to_compact(table: &DualAxisTable) -> (compact: Vec<
    Vec<(Option<i64>, Option<i64>)>,
>)
    ensures
        compact.len() == table.days.len(),
        forall|d: int|
            0 <= d < table.days.len() ==> (#[trigger] compact[d]).len()
                == table.days[d].entries.len(),
        forall|d: int, k: int|
            0 <= d < table.days.len() && 0 <= k < table.days[d].entries.len()
                ==> #[trigger] compact[d][k] == (
                table.days[d].entries[k].tilt,
                table.days[d].entries[k].panel_azimuth,
            ),
{
    let mut compact: Vec<Vec<(Option<i64>, Option<i64>)>> = Vec::new();
    let mut d: usize = 0;
    while d < table.days.len()
        invariant
            0 <= d <= table.days.len(),
            compact.len() == d,
            forall|i: int| 0 <= i < d ==> (#[trigger] compact[i]).len() == table.days[i].entries.len(),
            forall|i: int, k: int|
                0 <= i < d && 0 <= k < table.days[i].entries.len() ==> #[trigger] compact[i][k] == (
                    table.days[i].entries[k].tilt,
                    table.days[i].entries[k].panel_azimuth,
                ),
        decreases table.days.len() - d,
    {
        let entries = &table.days[d].entries;
        let mut values: Vec<(Option<i64>, Option<i64>)> = Vec::new();
        let mut k: usize = 0;
        while k < entries.len()
            invariant
                0 <= k <= entries.len(),
                values.len() == k,
                forall|j: int|
                    0 <= j < k ==> #[trigger] values[j] == (entries[j].tilt, entries[j].panel_azimuth),
            decreases entries.len() - k,
        {
            values.push((entries[k].tilt, entries[k].panel_azimuth));
            k = k + 1;
        }
        compact.push(values);
        d = d + 1;
    }
    compact
}

} // verus!
