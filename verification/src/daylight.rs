//! The daylight window of a day: sunrise and sunset from the sunset hour
//! angle, with the polar night and the polar day as their own cases.

use vstd::prelude::*;
use crate::types::{SunriseSunset, HALF_TURN, MICRO, MINUTES_PER_DAY, SOLAR_NOON};

verus! {

/// Sunrise and sunset in minutes of local solar time, from the cosine of
/// the sunset hour angle and the hour angle itself.
///
/// `cos_h` is in millionths and `hour_angle` in millionths of a degree. A
/// cosine of 1 or more means that the sun never rises: sunrise and sunset
/// are both solar noon. A cosine of -1 or less means that it never sets:
/// the day is full. Else the half day lasts four minutes for each degree
/// of the hour angle, which is taken within `[0, 180]` degrees, and both
/// times are rounded down to whole minutes.
pub open spec fn sunrise_sunset_of(cos_h: int, hour_angle: int) -> SunriseSunset {
    if cos_h >= MICRO {
        SunriseSunset { sunrise: SOLAR_NOON, sunset: SOLAR_NOON }
    } else if cos_h <= -MICRO {
        SunriseSunset { sunrise: 0, sunset: MINUTES_PER_DAY }
    } else {
        let h = if hour_angle < 0 {
            0
        } else if hour_angle > HALF_TURN {
            HALF_TURN as int
        } else {
            hour_angle
        };
        SunriseSunset {
            sunrise: ((SOLAR_NOON * MICRO - 4 * h) / (MICRO as int)) as i32,
            sunset: ((SOLAR_NOON * MICRO + 4 * h) / (MICRO as int)) as i32,
        }
    }
}

/// Estimates sunrise and sunset of a day in minutes of local solar time.
///
/// `cos_h` is the cosine of the sunset hour angle, the negated product of
/// the tangents of latitude and declination, in millionths; `hour_angle` is
/// its arc cosine in millionths of a degree, and is not looked at where the
/// cosine is not strictly between -1 and 1.
pub fn estimate_sunrise_sunset(cos_h: i64, hour_angle: i64) -> (ss: SunriseSunset)
    ensures
        ss == sunrise_sunset_of(cos_h as int, hour_angle as int),
        0 <= ss.sunrise <= SOLAR_NOON <= ss.sunset <= MINUTES_PER_DAY,
        cos_h >= MICRO ==> ss.sunrise == ss.sunset,
        cos_h <= -MICRO ==> ss.sunrise == 0 && ss.sunset == MINUTES_PER_DAY,
{
    if cos_h >= MICRO {
        SunriseSunset { sunrise: SOLAR_NOON, sunset: SOLAR_NOON }
    } else if cos_h <= -MICRO {
        SunriseSunset { sunrise: 0, sunset: MINUTES_PER_DAY }
    } else {
        let h: i64 = if hour_angle < 0 {
            0
        } else if hour_angle > HALF_TURN {
            HALF_TURN
        } else {
            hour_angle
        };
        let noon: i64 = SOLAR_NOON as i64 * MICRO;
        SunriseSunset {
            sunrise: ((noon - 4 * h) / MICRO) as i32,
            sunset: ((noon + 4 * h) / MICRO) as i32,
        }
    }
}

/// A larger hour angle gives a day that is no shorter: sunrise is no
/// later, and sunset no earlier.
pub proof fn lemma_daylight_grows_with_hour_angle(cos_h: int, h1: int, h2: int)
    requires
        h1 <= h2,
    ensures
        sunrise_sunset_of(cos_h, h2).sunrise <= sunrise_sunset_of(cos_h, h1).sunrise,
        sunrise_sunset_of(cos_h, h1).sunset <= sunrise_sunset_of(cos_h, h2).sunset,
{
}

} // verus!
