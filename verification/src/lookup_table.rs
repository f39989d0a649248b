//! The lookup tables at a glance: generation, interpolated queries and
//! compact export of both kinds of table, and the time-of-day helpers.

use vstd::prelude::*;

pub use crate::calendar::doy_to_month_day;
pub use crate::daylight::estimate_sunrise_sunset;
pub use crate::dual_axis::{dual_axis_table_to_compact, generate_dual_axis_table, lookup_dual_axis};
pub use crate::interpolation::interpolate_angle;
pub use crate::single_axis::{
    generate_single_axis_table, lookup_single_axis, single_axis_table_to_compact,
};
pub use crate::window::intervals_per_day;

verus! {

/// Hours and minutes of a count of minutes; both carry the sign of a
/// negative count.
pub open spec fn time_of(total_minutes: int) -> (int, int) {
    if total_minutes >= 0 {
        (total_minutes / 60, total_minutes % 60)
    } else {
        (-((-total_minutes) / 60), -((-total_minutes) % 60))
    }
}

/// Splits a count of minutes into hours and minutes.
pub fn minutes_to_time(total_minutes: i32) -> (time: (i32, i32))
    ensures
        (time.0 as int, time.1 as int) == time_of(total_minutes as int),
        time.0 * 60 + time.1 == total_minutes,
        0 <= total_minutes ==> 0 <= time.0 && 0 <= time.1 < 60,
{
    (total_minutes / 60, total_minutes % 60)
}

/// The count of minutes that hours and minutes add up to.
pub fn time_to_minutes(time: (i32, i32)) -> (total_minutes: i32)
    requires
        i32::MIN <= time.0 * 60 + time.1 <= i32::MAX,
    ensures
        total_minutes == time.0 * 60 + time.1,
{
    ((time.0 as i64) * 60 + time.1 as i64) as i32
}

/// Hours and minutes add up to the minutes they were taken from.
pub proof fn lemma_time_round_trip(total_minutes: int)
    ensures
        time_of(total_minutes).0 * 60 + time_of(total_minutes).1 == total_minutes,
{
}

} // verus!
