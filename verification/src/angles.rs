//! The angle formulas that need no trigonometry, and the calendar functions
//! that the solar formulas start from.

use vstd::prelude::*;
use crate::types::{
    DualAxisAngles, Season, SolarPosition, FULL_TURN, HALF_TURN, MICRO, QUARTER_TURN,
};

pub use crate::calendar::{day_of_year, days_in_months, leap_year};

verus! {

/// The tilt of the earth's axis: 23.45 degrees.
pub const EARTH_AXIAL_TILT: i64 = 23_450_000;

/// Degrees the sun travels in one hour.
pub const DEGREES_PER_HOUR: i64 = 15;

/// The angle in `[0, 360)` degrees that differs from `angle` by whole
/// turns.
pub open spec fn normalized(angle: int) -> int {
    angle % (FULL_TURN as int)
}

/// Brings an angle into `[0, 360)` degrees by whole turns.
pub fn normalize_angle(angle: i64) -> (r: i64)
    ensures
        r == normalized(angle as int),
        0 <= r < FULL_TURN,
{
    let r: i64 = angle % FULL_TURN;
    if r < 0 {
        r + FULL_TURN
    } else {
        r
    }
}

/// The angles of a dual-axis tracker that faces the sun: the tilt is the
/// zenith angle, and the panel's azimuth is the sun's azimuth turned by
/// half a turn, in `[0, 360)` degrees.
pub open spec fn dual_axis_angles_of(pos: SolarPosition) -> DualAxisAngles {
    DualAxisAngles { tilt: pos.zenith, panel_azimuth: normalized(pos.azimuth + HALF_TURN) as i64 }
}

/// The tilt and panel azimuth with which a dual-axis tracker faces the sun
/// at `pos`.
pub fn dual_axis_angles(pos: &SolarPosition) -> (angles: DualAxisAngles)
    ensures
        angles == dual_axis_angles_of(*pos),
        0 <= angles.panel_azimuth < FULL_TURN,
{
    let sun: i64 = normalize_angle(pos.azimuth);
    let turned: i64 = if sun < HALF_TURN {
        sun + HALF_TURN
    } else {
        sun - HALF_TURN
    };
    DualAxisAngles { tilt: pos.zenith, panel_azimuth: turned }
}

/// The size of an angle, whichever way it turns.
pub open spec fn magnitude(angle: int) -> int {
    if angle < 0 {
        -angle
    } else {
        angle
    }
}

/// The tilt of a fixed panel that serves the whole year best: 0.76 times
/// the size of the latitude plus 3.1 degrees, rounded down to a millionth
/// of a degree.
pub open spec fn optimal_fixed_tilt_of(latitude: int) -> int {
    (76 * magnitude(latitude)) / 100 + 3_100_000
}

/// The tilt of a fixed panel at `latitude` that serves the whole year best.
pub fn optimal_fixed_tilt(latitude: i64) -> (tilt: i64)
    ensures
        tilt == optimal_fixed_tilt_of(latitude as int),
{
    let size: i128 = if latitude < 0 {
        -(latitude as i128)
    } else {
        latitude as i128
    };
    ((76 * size) / 100 + 3_100_000) as i64
}

/// The tilt of a fixed panel that is reset with the seasons: the size of
/// the latitude, less 15 degrees in summer and plus 15 degrees in winter.
pub open spec fn seasonal_tilt_of(latitude: int, season: Season) -> int {
    match season {
        Season::Summer => magnitude(latitude) - 15_000_000,
        Season::Winter => magnitude(latitude) + 15_000_000,
        Season::Spring | Season::Fall => magnitude(latitude),
    }
}

/// The tilt of a fixed panel at `latitude` for one season. The latitude
/// must leave room for the 15 degrees within an `i64`.
pub fn seasonal_tilt_adjustment(latitude: i64, season: Season) -> (tilt: i64)
    requires
        magnitude(latitude as int) + 15_000_000 <= i64::MAX,
    ensures
        tilt == seasonal_tilt_of(latitude as int, season),
{
    let size: i64 = if latitude < 0 {
        -latitude
    } else {
        latitude
    };
    match season {
        Season::Summer => size - 15_000_000,
        Season::Winter => size + 15_000_000,
        Season::Spring | Season::Fall => size,
    }
}

/// The hour angle of a local solar time: 15 degrees for each hour since
/// solar noon, negative before noon.
pub open spec fn hour_angle_of(local_solar_time: int) -> int {
    DEGREES_PER_HOUR * (local_solar_time - 12 * MICRO)
}

/// The hour angle, in millionths of a degree, of a local solar time in
/// millionths of an hour. The time must be one whose hour angle fits into
/// an `i64`.
pub fn hour_angle(local_solar_time: i64) -> (angle: i64)
    requires
        i64::MIN <= hour_angle_of(local_solar_time as int) <= i64::MAX,
    ensures
        angle == hour_angle_of(local_solar_time as int),
{
    (DEGREES_PER_HOUR as i128 * (local_solar_time as i128 - 12 * MICRO as i128)) as i64
}

/// The sun's altitude above the horizon: what the zenith angle lacks of a
/// quarter turn. The zenith angle must be one whose altitude fits into an
/// `i64`.
pub fn solar_altitude(zenith_angle: i64) -> (altitude: i64)
    requires
        QUARTER_TURN - zenith_angle <= i64::MAX,
    ensures
        altitude == QUARTER_TURN - zenith_angle,
        altitude + zenith_angle == QUARTER_TURN,
{
    QUARTER_TURN - zenith_angle
}

/// What local solar time is ahead of UTC, in millionths of an hour: four
/// minutes for each degree of eastern longitude plus the equation of time,
/// rounded down.
pub open spec fn utc_lst_correction_of(longitude: int, eot: int) -> int {
    (4 * longitude + eot) / 60
}

/// What local solar time is ahead of UTC, in millionths of an hour, at a
/// longitude in millionths of a degree and for an equation of time in
/// millionths of a minute.
pub fn utc_lst_correction(longitude: i64, eot: i64) -> (correction: i64)
    ensures
        correction == utc_lst_correction_of(longitude as int, eot as int),
{
    let minutes: i128 = 4 * longitude as i128 + eot as i128;
    let hours: i128 = if minutes >= 0 {
        minutes / 60
    } else {
        -((-minutes + 59) / 60)
    };
    hours as i64
}

} // verus!
