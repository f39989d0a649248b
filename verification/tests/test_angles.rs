use solar_tracker::angles::{
    day_of_year, dual_axis_angles, hour_angle, normalize_angle, optimal_fixed_tilt,
    seasonal_tilt_adjustment, solar_altitude, utc_lst_correction,
};
use solar_tracker::types::{Season, SolarPosition};

const MICRO: f64 = 1_000_000.0;

fn micro(value: f64) -> i64 {
    (value * MICRO).round() as i64
}

fn degrees(value: i64) -> f64 {
    value as f64 / MICRO
}

fn assert_approx(left: f64, right: f64, tol: f64) {
    assert!(
        (left - right).abs() <= tol,
        "assert_approx failed: left={}, right={}, diff={}, tol={}",
        left,
        right,
        (left - right).abs(),
        tol
    );
}

// ── DayOfYear ──

#[test]
fn test_day_of_year_known_dates() {
    assert_eq!(day_of_year(2026, 1, 1), 1);
    assert_eq!(day_of_year(2026, 3, 21), 80);
    assert_eq!(day_of_year(2026, 12, 31), 365);
}

#[test]
fn test_day_of_year_leap_year() {
    assert_eq!(day_of_year(2024, 2, 29), 60);
    assert_eq!(day_of_year(2024, 3, 1), 61);
    assert_eq!(day_of_year(2024, 12, 31), 366);
}

#[test]
fn test_day_of_year_century_leap_rules() {
    assert_eq!(day_of_year(2000, 2, 29), 60);
    assert_eq!(day_of_year(1900, 2, 28), 59);
}

#[test]
fn test_first_day_of_each_month_non_leap() {
    let expected = [1, 32, 60, 91, 121, 152, 182, 213, 244, 274, 305, 335];
    for (i, &exp) in expected.iter().enumerate() {
        let month = i as u32 + 1;
        assert_eq!(day_of_year(2026, month, 1), exp, "Month {}", month);
    }
}

#[test]
fn test_first_day_of_each_month_leap() {
    let expected = [1, 32, 61, 92, 122, 153, 183, 214, 245, 275, 306, 336];
    for (i, &exp) in expected.iter().enumerate() {
        let month = i as u32 + 1;
        assert_eq!(day_of_year(2024, month, 1), exp, "Month {} (leap)", month);
    }
}

#[test]
fn day_of_year_takes_any_month_and_day() {
    assert_eq!(day_of_year(2026, 0, 0), 0);
    assert_eq!(day_of_year(2026, 13, 1), 335);
    assert_eq!(day_of_year(2026, 12, u32::MAX), i32::MAX);
    assert_eq!(day_of_year(2026, 2, 31), 62);
}

// ── NormalizeAngle ──

#[test]
fn test_normalize_angle_basic() {
    let cases: &[(f64, f64)] = &[
        (0.0, 0.0),
        (45.0, 45.0),
        (360.0, 0.0),
        (361.0, 1.0),
        (-1.0, 359.0),
        (-90.0, 270.0),
        (405.0, 45.0),
        (-180.0, 180.0),
    ];
    for &(input, expected) in cases {
        assert_approx(degrees(normalize_angle(micro(input))), expected, 0.1);
    }
}

#[test]
fn test_normalize_angle_large() {
    let cases: &[(f64, f64)] = &[
        (720.0, 0.0),
        (810.0, 90.0),
        (-720.0, 0.0),
        (-450.0, 270.0),
    ];
    for &(input, expected) in cases {
        assert_approx(degrees(normalize_angle(micro(input))), expected, 0.1);
    }
}

#[test]
fn test_normalize_angle_small_near_zero() {
    assert_approx(degrees(normalize_angle(micro(0.001))), 0.001, 1e-6);
    assert_approx(degrees(normalize_angle(micro(-0.001))), 359.999, 1e-6);
}

#[test]
fn normalize_angle_exact_values() {
    assert_eq!(normalize_angle(-1), 359_999_999);
    assert_eq!(normalize_angle(360_000_000), 0);
    assert_eq!(normalize_angle(i64::MIN), 305_224_192);
    assert_eq!(normalize_angle(i64::MAX), 54_775_807);
}

// ── DualAxisAngles ──

fn position_with_azimuth(solar_az: f64) -> SolarPosition {
    SolarPosition {
        day_of_year: 1,
        declination: 0,
        equation_of_time: 0,
        local_solar_time: micro(12.0),
        hour_angle: 0,
        zenith: micro(30.0),
        altitude: micro(60.0),
        azimuth: micro(solar_az),
    }
}

#[test]
fn test_dual_axis_panel_azimuth_normalized() {
    for &solar_az in &[0.0, 45.0, 90.0, 135.0, 180.0, 225.0, 270.0, 315.0, 359.9] {
        let pos = position_with_azimuth(solar_az);
        let da = dual_axis_angles(&pos);
        assert!(
            degrees(da.panel_azimuth) >= 0.0 && degrees(da.panel_azimuth) < 360.0,
            "panel_azimuth={} for solar_az={}",
            da.panel_azimuth,
            solar_az
        );
    }
}

#[test]
fn dual_axis_angles_turn_the_azimuth_by_half_a_turn() {
    let south = dual_axis_angles(&position_with_azimuth(180.0));
    assert_eq!(south.tilt, 30_000_000);
    assert_eq!(south.panel_azimuth, 0);
    let east = dual_axis_angles(&position_with_azimuth(90.0));
    assert_eq!(east.panel_azimuth, 270_000_000);
    let west = dual_axis_angles(&position_with_azimuth(270.0));
    assert_eq!(west.panel_azimuth, 90_000_000);
    let wild = dual_axis_angles(&position_with_azimuth(-725.0));
    assert_eq!(wild.panel_azimuth, 175_000_000);
}

// ── OptimalFixedTilt ──

#[test]
fn test_optimal_fixed_tilt_springfield() {
    assert_approx(degrees(optimal_fixed_tilt(micro(39.8))), 33.3, 1.0);
}

#[test]
fn test_optimal_fixed_tilt_formula_values() {
    assert_approx(degrees(optimal_fixed_tilt(micro(40.0))), 33.5, 0.1);
    assert_approx(degrees(optimal_fixed_tilt(micro(0.0))), 3.1, 0.1);
    assert_approx(degrees(optimal_fixed_tilt(micro(-40.0))), 33.5, 0.1);
}

#[test]
fn test_optimal_fixed_tilt_symmetric() {
    for lat in &[10.0, 25.0, 40.0, 55.0, 70.0, 85.0] {
        assert_approx(
            degrees(optimal_fixed_tilt(micro(*lat))),
            degrees(optimal_fixed_tilt(micro(-*lat))),
            1e-10,
        );
    }
}

#[test]
fn test_optimal_fixed_tilt_increases_with_latitude() {
    let lats = [0.0, 15.0, 30.0, 45.0, 60.0, 75.0, 90.0];
    let tilts: Vec<f64> = lats.iter().map(|&l| degrees(optimal_fixed_tilt(micro(l)))).collect();
    for i in 0..tilts.len() - 1 {
        assert!(tilts[i] <= tilts[i + 1], "{:?}", tilts);
    }
}

#[test]
fn optimal_fixed_tilt_exact_values() {
    assert_eq!(optimal_fixed_tilt(39_800_000), 33_348_000);
    assert_eq!(optimal_fixed_tilt(1), 3_100_000);
    assert_eq!(optimal_fixed_tilt(-2), 3_100_001);
    assert_eq!(optimal_fixed_tilt(i64::MIN), 7_009_762_748_012_729_614);
}

// ── SeasonalTiltAdjustment ──

#[test]
fn test_seasonal_tilt_basic() {
    let lat = micro(40.0);
    assert_approx(degrees(seasonal_tilt_adjustment(lat, Season::Summer)), 25.0, 0.1);
    assert_approx(degrees(seasonal_tilt_adjustment(lat, Season::Winter)), 55.0, 0.1);
    assert_approx(degrees(seasonal_tilt_adjustment(lat, Season::Spring)), 40.0, 0.1);
    assert_approx(degrees(seasonal_tilt_adjustment(lat, Season::Fall)), 40.0, 0.1);
}

#[test]
fn test_seasonal_tilt_ordering() {
    let lat = micro(40.0);
    assert!(
        seasonal_tilt_adjustment(lat, Season::Summer)
            < seasonal_tilt_adjustment(lat, Season::Spring)
    );
    assert!(
        seasonal_tilt_adjustment(lat, Season::Spring)
            < seasonal_tilt_adjustment(lat, Season::Winter)
    );
}

#[test]
fn test_seasonal_tilt_equator() {
    assert_approx(degrees(seasonal_tilt_adjustment(0, Season::Summer)), -15.0, 0.01);
    assert_approx(degrees(seasonal_tilt_adjustment(0, Season::Winter)), 15.0, 0.01);
    assert_approx(degrees(seasonal_tilt_adjustment(0, Season::Spring)), 0.0, 0.01);
}

#[test]
fn seasonal_tilt_southern_latitude() {
    assert_eq!(seasonal_tilt_adjustment(-33_900_000, Season::Summer), 18_900_000);
    assert_eq!(seasonal_tilt_adjustment(-33_900_000, Season::Winter), 48_900_000);
    assert_eq!(seasonal_tilt_adjustment(-33_900_000, Season::Fall), 33_900_000);
}

// ── HourAngle ──

#[test]
fn test_hour_angle_solar_noon() {
    assert_approx(degrees(hour_angle(micro(12.0))), 0.0, 0.01);
}

#[test]
fn test_hour_angle_morning_negative() {
    assert!(hour_angle(micro(10.0)) < 0);
}

#[test]
fn test_hour_angle_afternoon_positive() {
    assert!(hour_angle(micro(14.0)) > 0);
}

#[test]
fn test_hour_angle_known_values() {
    assert_approx(degrees(hour_angle(micro(13.0))), 15.0, 0.01);
    assert_approx(degrees(hour_angle(micro(11.0))), -15.0, 0.01);
    assert_approx(degrees(hour_angle(micro(15.0))), 45.0, 0.01);
}

#[test]
fn hour_angle_exact_values() {
    assert_eq!(hour_angle(12_000_000), 0);
    assert_eq!(hour_angle(0), -180_000_000);
    assert_eq!(hour_angle(24_000_000), 180_000_000);
    assert_eq!(hour_angle(11_900_000), -1_500_000);
    assert_eq!(hour_angle(614_891_469_135_651_720), i64::MAX - 7);
    assert_eq!(hour_angle(-614_891_469_111_651_720), i64::MIN + 8);
}

// ── Altitude and the correction to UTC ──

#[test]
fn altitude_and_zenith_make_a_quarter_turn() {
    assert_eq!(solar_altitude(40_200_000), 49_800_000);
    assert_eq!(solar_altitude(0), 90_000_000);
    assert_eq!(solar_altitude(120_000_000), -30_000_000);
    for zenith in [0, 1, 89_999_999, 90_000_000, 180_000_000] {
        assert_eq!(solar_altitude(zenith) + zenith, 90_000_000);
    }
    assert_eq!(solar_altitude(i64::MAX), i64::MIN + 90_000_001);
}

#[test]
fn correction_to_utc_exact_values() {
    assert_eq!(utc_lst_correction(0, 0), 0);
    assert_eq!(utc_lst_correction(15_000_000, 0), 1_000_000);
    assert_eq!(utc_lst_correction(-90_000_000, 0), -6_000_000);
    assert_eq!(utc_lst_correction(-89_600_000, -7_856_000), -6_104_267);
    assert_eq!(utc_lst_correction(0, 59), 0);
    assert_eq!(utc_lst_correction(0, 60), 1);
    assert_eq!(utc_lst_correction(0, -1), -1);
    assert_eq!(utc_lst_correction(0, -60), -1);
    assert_eq!(utc_lst_correction(0, -61), -2);
    assert_eq!(utc_lst_correction(i64::MAX, i64::MAX), 768_614_336_404_564_650);
    assert_eq!(utc_lst_correction(i64::MIN, i64::MIN), -768_614_336_404_564_651);
}
