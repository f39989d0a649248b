use solar_tracker::bracket::{find_bracketing_entries, Bracket};
use solar_tracker::interpolation::{interpolate_angle, interpolate_linear, Fraction};
use solar_tracker::lookup_table::{
    generate_dual_axis_table, generate_single_axis_table, lookup_dual_axis, lookup_single_axis,
};
use solar_tracker::types::{
    DayData, DualAxisEntry, DualAxisTable, LookupTableConfig, SingleAxisEntry, SingleAxisTable,
    SolarPosition, SunriseSunset,
};

fn config() -> LookupTableConfig {
    LookupTableConfig {
        interval_minutes: 15,
        latitude: 0,
        longitude: 0,
        std_meridian: None,
        year: 2026,
        sunrise_buffer_minutes: 30,
        sunset_buffer_minutes: 30,
    }
}

fn fixed_day(_doy: i32) -> SunriseSunset {
    SunriseSunset { sunrise: 361, sunset: 1078 }
}

/// Rotations on a line through the day: a thousand units a minute.
fn ramp_table() -> SingleAxisTable {
    generate_single_axis_table(&config(), fixed_day, |doy, minute| (minute as i64 - 720) * 1000 + doy as i64, 0)
}

/// Tilts that fall through the day, and azimuths that cross north at noon.
fn dual_table() -> DualAxisTable {
    generate_dual_axis_table(
        &config(),
        fixed_day,
        |doy, minute| SolarPosition {
            day_of_year: doy,
            declination: 0,
            equation_of_time: 0,
            local_solar_time: 0,
            hour_angle: 0,
            zenith: 90_000_000 - minute as i64 * 10,
            altitude: minute as i64 * 10,
            azimuth: 180_000_000 + (minute as i64 - 722) * 1_000_000,
        },
        0,
    )
}

fn part(numerator: i32, denominator: i32) -> Fraction {
    Fraction { numerator, denominator }
}

// ── Linear interpolation ──

#[test]
fn linear_interpolation_exact_values() {
    assert_eq!(interpolate_linear(Some(0), Some(90_000_000), part(1, 2)), Some(45_000_000));
    assert_eq!(interpolate_linear(Some(10), Some(20), part(0, 15)), Some(10));
    assert_eq!(interpolate_linear(Some(10), Some(20), part(15, 15)), Some(20));
    assert_eq!(interpolate_linear(Some(-30), Some(30), part(1, 3)), Some(-10));
    assert_eq!(interpolate_linear(Some(30), Some(-30), part(2, 3)), Some(-10));
}

#[test]
fn linear_interpolation_rounds_down() {
    assert_eq!(interpolate_linear(Some(0), Some(10), part(7, 15)), Some(4));
    assert_eq!(interpolate_linear(Some(10), Some(0), part(7, 15)), Some(5));
    assert_eq!(interpolate_linear(Some(0), Some(1), part(14, 15)), Some(0));
    assert_eq!(interpolate_linear(Some(0), Some(-1), part(1, 15)), Some(-1));
}

#[test]
fn linear_interpolation_stays_between_its_ends() {
    let ends = [i64::MIN, -90_000_000, -1, 0, 1, 33_333_333, i64::MAX];
    for &a in &ends {
        for &b in &ends {
            for n in 0..=7 {
                let v = interpolate_linear(Some(a), Some(b), part(n, 7)).unwrap();
                assert!(a.min(b) <= v && v <= a.max(b), "{} {} {}/7 -> {}", a, b, n, v);
            }
            assert_eq!(interpolate_linear(Some(a), Some(b), part(0, 7)), Some(a));
            assert_eq!(interpolate_linear(Some(a), Some(b), part(7, 7)), Some(b));
        }
    }
}

#[test]
fn linear_interpolation_of_absent_values() {
    assert_eq!(interpolate_linear(None, Some(10), part(1, 2)), None);
    assert_eq!(interpolate_linear(Some(10), None, part(1, 2)), None);
    assert_eq!(interpolate_linear(None, None, part(1, 2)), None);
}

// ── Angular interpolation ──

#[test]
fn angular_interpolation_exact_values() {
    assert_eq!(interpolate_angle(Some(350_000_000), Some(10_000_000), part(1, 2)), Some(0));
    assert_eq!(interpolate_angle(Some(10_000_000), Some(350_000_000), part(1, 2)), Some(0));
    assert_eq!(interpolate_angle(Some(350_000_000), Some(10_000_000), part(1, 4)), Some(355_000_000));
    assert_eq!(interpolate_angle(Some(350_000_000), Some(10_000_000), part(3, 4)), Some(5_000_000));
    assert_eq!(interpolate_angle(Some(10_000_000), Some(350_000_000), part(3, 4)), Some(355_000_000));
    assert_eq!(interpolate_angle(Some(0), Some(90_000_000), part(1, 3)), Some(30_000_000));
    assert_eq!(interpolate_angle(Some(90_000_000), Some(0), part(1, 3)), Some(60_000_000));
}

#[test]
fn angular_interpolation_of_opposite_angles() {
    assert_eq!(interpolate_angle(Some(0), Some(180_000_000), part(1, 2)), Some(90_000_000));
    assert_eq!(interpolate_angle(Some(180_000_000), Some(0), part(1, 2)), Some(90_000_000));
    assert_eq!(interpolate_angle(Some(0), Some(180_000_001), part(1, 2)), Some(270_000_000));
    assert_eq!(interpolate_angle(Some(180_000_001), Some(0), part(1, 2)), Some(270_000_000));
}

#[test]
fn angular_interpolation_ends_and_range() {
    let angles = [0, 1, 89_999_999, 179_999_999, 180_000_000, 270_000_000, 359_999_999];
    for &a in &angles {
        for &b in &angles {
            assert_eq!(interpolate_angle(Some(a), Some(b), part(0, 9)), Some(a));
            assert_eq!(interpolate_angle(Some(a), Some(b), part(9, 9)), Some(b));
            for n in 0..=9 {
                let v = interpolate_angle(Some(a), Some(b), part(n, 9)).unwrap();
                assert!((0..360_000_000).contains(&v));
                let arc = (b - a + 540_000_000) % 360_000_000 - 180_000_000;
                let turned = (v - a + 540_000_000) % 360_000_000 - 180_000_000;
                if arc.abs() < 180_000_000 {
                    assert!(turned.abs() <= arc.abs(), "{} {} {}/9 -> {}", a, b, n, v);
                    assert!(turned == 0 || arc == 0 || (turned > 0) == (arc > 0));
                }
            }
        }
    }
}

#[test]
fn angular_interpolation_of_any_angles() {
    assert_eq!(interpolate_angle(Some(-10_000_000), Some(10_000_000), part(1, 2)), Some(0));
    assert_eq!(interpolate_angle(Some(710_000_000), Some(10_000_000), part(1, 2)), Some(180_000_000));
    assert_eq!(interpolate_angle(Some(0), Some(90_000_000), part(2, 1)), Some(180_000_000));
    assert_eq!(interpolate_angle(Some(0), Some(90_000_000), part(-1, 1)), Some(270_000_000));
    let far = interpolate_angle(Some(i64::MIN), Some(i64::MAX), part(i32::MAX, 1)).unwrap();
    assert!((0..360_000_000).contains(&far));
}

// ── Bracketing ──

#[test]
fn bracket_of_a_sampled_minute_is_that_entry() {
    let table = ramp_table();
    let row = &table.days[0];
    assert_eq!(
        find_bracketing_entries(row, 15, 345),
        Some(Bracket { before: 0, after: None, fraction: part(0, 1) })
    );
    assert_eq!(
        find_bracketing_entries(row, 15, 720),
        Some(Bracket { before: 25, after: None, fraction: part(0, 1) })
    );
    assert_eq!(
        find_bracketing_entries(row, 15, 1095),
        Some(Bracket { before: 50, after: None, fraction: part(0, 1) })
    );
}

#[test]
fn bracket_between_two_entries() {
    let table = ramp_table();
    let row = &table.days[0];
    assert_eq!(
        find_bracketing_entries(row, 15, 727),
        Some(Bracket { before: 25, after: Some(26), fraction: part(7, 15) })
    );
    assert_eq!(
        find_bracketing_entries(row, 15, 346),
        Some(Bracket { before: 0, after: Some(1), fraction: part(1, 15) })
    );
    assert_eq!(
        find_bracketing_entries(row, 15, 1094),
        Some(Bracket { before: 49, after: Some(50), fraction: part(14, 15) })
    );
}

#[test]
fn no_bracket_outside_the_row() {
    let table = ramp_table();
    let row = &table.days[0];
    assert_eq!(find_bracketing_entries(row, 15, 344), None);
    assert_eq!(find_bracketing_entries(row, 15, 1096), None);
    assert_eq!(find_bracketing_entries(row, 15, 0), None);
    assert_eq!(find_bracketing_entries(row, 15, i32::MIN), None);
    assert_eq!(find_bracketing_entries(row, 15, i32::MAX), None);
    let empty: DayData<SingleAxisEntry> =
        DayData { day_of_year: 1, sunrise_minutes: 720, sunset_minutes: 720, entries: vec![] };
    assert_eq!(find_bracketing_entries(&empty, 15, 720), None);
}

// ── Single-axis lookup ──

#[test]
fn lookup_of_a_sampled_minute_gives_the_entry_back() {
    let table = ramp_table();
    for (index, day) in table.days.iter().enumerate() {
        for e in &day.entries {
            assert_eq!(lookup_single_axis(&table, index as i32 + 1, e.minutes), Some(*e));
        }
    }
    let dual = dual_table();
    for (index, day) in dual.days.iter().enumerate() {
        for e in &day.entries {
            assert_eq!(lookup_dual_axis(&dual, index as i32 + 1, e.minutes), Some(*e));
        }
    }
}

#[test]
fn lookup_interpolates_along_the_line() {
    let table = ramp_table();
    assert_eq!(
        lookup_single_axis(&table, 80, 727),
        Some(SingleAxisEntry { minutes: 727, rotation: Some(7_080) })
    );
    assert_eq!(
        lookup_single_axis(&table, 80, 719),
        Some(SingleAxisEntry { minutes: 719, rotation: Some(-920) })
    );
    assert_eq!(
        lookup_single_axis(&table, 1, 376),
        Some(SingleAxisEntry { minutes: 376, rotation: Some(-343_999) })
    );
}

#[test]
fn lookup_next_to_the_buffers_has_no_value() {
    let table = ramp_table();
    // 360 lies in the buffer, 375 in daylight.
    assert_eq!(lookup_single_axis(&table, 80, 360), Some(SingleAxisEntry { minutes: 360, rotation: None }));
    assert_eq!(lookup_single_axis(&table, 80, 370), Some(SingleAxisEntry { minutes: 370, rotation: None }));
    assert_eq!(lookup_single_axis(&table, 80, 350), Some(SingleAxisEntry { minutes: 350, rotation: None }));
    assert_eq!(
        lookup_single_axis(&table, 80, 375),
        Some(SingleAxisEntry { minutes: 375, rotation: Some(-344_920) })
    );
    assert_eq!(lookup_single_axis(&table, 80, 1070), Some(SingleAxisEntry { minutes: 1070, rotation: None }));
    assert_eq!(lookup_single_axis(&table, 80, 1095), Some(SingleAxisEntry { minutes: 1095, rotation: None }));
}

#[test]
fn lookup_outside_the_window_finds_nothing() {
    let table = ramp_table();
    assert_eq!(lookup_single_axis(&table, 80, 0), None);
    assert_eq!(lookup_single_axis(&table, 80, 344), None);
    assert_eq!(lookup_single_axis(&table, 80, 1096), None);
    assert_eq!(lookup_single_axis(&table, 80, 1439), None);
    assert_eq!(lookup_single_axis(&table, 80, -1), None);
    let dual = dual_table();
    assert_eq!(lookup_dual_axis(&dual, 80, 0), None);
    assert_eq!(lookup_dual_axis(&dual, 80, 1096), None);
}

#[test]
fn lookup_outside_the_year_finds_nothing() {
    let table = ramp_table();
    assert_eq!(lookup_single_axis(&table, 0, 720), None);
    assert_eq!(lookup_single_axis(&table, 366, 720), None);
    assert_eq!(lookup_single_axis(&table, -1, 720), None);
    assert_eq!(lookup_single_axis(&table, i32::MAX, 720), None);
    assert_eq!(lookup_single_axis(&table, i32::MIN, 720), None);
    assert!(lookup_single_axis(&table, 1, 720).is_some());
    assert!(lookup_single_axis(&table, 365, 720).is_some());
    let dual = dual_table();
    assert_eq!(lookup_dual_axis(&dual, 0, 720), None);
    assert_eq!(lookup_dual_axis(&dual, 366, 720), None);
}

#[test]
fn lookup_in_an_empty_row_finds_nothing() {
    let table = generate_single_axis_table(
        &LookupTableConfig { interval_minutes: 7, sunrise_buffer_minutes: 0, sunset_buffer_minutes: 0, ..config() },
        |_| SunriseSunset { sunrise: 720, sunset: 720 },
        |_, _| 0,
        0,
    );
    assert_eq!(lookup_single_axis(&table, 80, 720), None);
}

// ── Dual-axis lookup ──

#[test]
fn dual_lookup_interpolates_tilt_and_azimuth() {
    let table = dual_table();
    // At 720 the sun's azimuth is 178 degrees, at 735 it is 193 degrees:
    // the panel turns from 358 through north to 13 degrees.
    assert_eq!(
        lookup_dual_axis(&table, 80, 720),
        Some(DualAxisEntry { minutes: 720, tilt: Some(89_992_800), panel_azimuth: Some(358_000_000) })
    );
    assert_eq!(
        lookup_dual_axis(&table, 80, 735),
        Some(DualAxisEntry { minutes: 735, tilt: Some(89_992_650), panel_azimuth: Some(13_000_000) })
    );
    assert_eq!(
        lookup_dual_axis(&table, 80, 721),
        Some(DualAxisEntry { minutes: 721, tilt: Some(89_992_790), panel_azimuth: Some(359_000_000) })
    );
    assert_eq!(
        lookup_dual_axis(&table, 80, 722),
        Some(DualAxisEntry { minutes: 722, tilt: Some(89_992_780), panel_azimuth: Some(0) })
    );
    assert_eq!(
        lookup_dual_axis(&table, 80, 730),
        Some(DualAxisEntry { minutes: 730, tilt: Some(89_992_700), panel_azimuth: Some(8_000_000) })
    );
}

#[test]
fn dual_lookup_next_to_the_buffers_has_no_values() {
    let table = dual_table();
    assert_eq!(
        lookup_dual_axis(&table, 80, 370),
        Some(DualAxisEntry { minutes: 370, tilt: None, panel_azimuth: None })
    );
    assert_eq!(
        lookup_dual_axis(&table, 80, 1090),
        Some(DualAxisEntry { minutes: 1090, tilt: None, panel_azimuth: None })
    );
}
