//! Sun-tracking lookup tables: calendar arithmetic, daylight windows, table
//! generation over a pluggable solar geometry, and interpolated queries, all
//! in fixed-point arithmetic.

pub mod angles;
pub mod bracket;
pub mod calendar;
pub mod daylight;
pub mod dual_axis;
pub mod generate;
pub mod instant;
pub mod interpolation;
pub mod lookup_table;
pub mod single_axis;
pub mod timestamp;
pub mod types;
pub mod window;

pub use angles::{
    day_of_year, days_in_months, dual_axis_angles, hour_angle, leap_year, normalize_angle,
    optimal_fixed_tilt, seasonal_tilt_adjustment, solar_altitude, utc_lst_correction,
    DEGREES_PER_HOUR, EARTH_AXIAL_TILT,
};
pub use lookup_table::{
    doy_to_month_day, dual_axis_table_to_compact, estimate_sunrise_sunset,
    generate_dual_axis_table, generate_single_axis_table, interpolate_angle, intervals_per_day,
    lookup_dual_axis, lookup_single_axis, minutes_to_time, single_axis_table_to_compact,
    time_to_minutes,
};
pub use types::{
    DayData, DualAxisAngles, DualAxisEntry, DualAxisTable, HasMinutes, LookupTable,
    LookupTableConfig, Season, SingleAxisEntry, SingleAxisTable, SolarPosition, SunriseSunset,
    TableMetadata,
};
