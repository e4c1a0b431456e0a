//! The tokens against the same formulas in floating point, on readings with
//! three fractional digits that do not fall on a rounding tie.

use metgen::fields::{format_clouds, format_pressure, format_temp_dew, format_visibility, format_wind};
use metgen::fixed::Fixed;
use metgen::record::Units;

fn exact(thousandths: i32) -> Option<Fixed> {
    Some(Fixed::from_thousandths(thousandths))
}

fn float(thousandths: i32) -> f64 {
    f64::from(thousandths) / 1000.0
}

/// Whether `num / den` lies within a millionth of halfway between two
/// integers.
fn near_tie(num: i64, den: i64) -> bool {
    let twice = (2 * num).rem_euclid(2 * den);
    let gap = (twice - den).abs();
    gap * 1_000_000 < 2 * den
}

fn common_divisor(a: i32, b: i32) -> i32 {
    if b == 0 {
        a.abs()
    } else {
        common_divisor(b, a % b)
    }
}

fn float_wind(direction: i32, speed: f64, gust: f64) -> String {
    let speed_knots = (speed * 1.94384).round() as i32;
    let gust_knots = (gust * 1.94384).round() as i32;
    if direction < 0 {
        "VRB00KT".to_string()
    } else if gust_knots > 0 {
        format!("{:03}{:02}G{:02}KT", direction, speed_knots, gust_knots)
    } else {
        format!("{:03}{:02}KT", direction, speed_knots)
    }
}

fn float_fraction(quarters: f64) -> (i32, i32) {
    let numerator = quarters as i32;
    let divisor = common_divisor(numerator, 4);
    (numerator / divisor, 4 / divisor)
}

fn float_visibility(metres: f64, units: Units, reducing: bool) -> String {
    match units {
        Units::Metric => {
            let rounded = ((metres / 100.0).round() * 100.0) as i32;
            if rounded == 10000 {
                "9999".to_string()
            } else {
                format!("{:04}", rounded)
            }
        }
        Units::Imperial => {
            let miles = metres / 1609.344;
            if (metres - 10000.0).abs() < f64::EPSILON && !reducing {
                return "10SM".to_string();
            }
            if miles < 1.0 {
                let (num, den) = float_fraction((miles * 4.0).round());
                if den == 1 {
                    format!("{}SM", num)
                } else {
                    format!("{}/{}SM", num, den)
                }
            } else {
                let whole = miles.floor() as i32;
                let quarters = ((miles - f64::from(whole)) * 4.0).round();
                if quarters == 0.0 {
                    return format!("{}SM", whole);
                }
                let (num, den) = float_fraction(quarters);
                if den == 1 {
                    format!("{}SM", whole + num)
                } else {
                    format!("{} {}/{}SM", whole, num, den)
                }
            }
        }
    }
}

fn float_degrees(degrees: f64) -> String {
    if degrees < 0.0 {
        format!("M{:02}", degrees.abs().round() as i32)
    } else {
        format!("{:02}", degrees.round() as i32)
    }
}

fn float_pressure(pressure: f64, units: Units) -> String {
    match units {
        Units::Imperial => format!("A{:04}", (pressure * 0.02953 * 100.0).round() as i32),
        Units::Metric => format!("Q{:04}", pressure.round() as i32),
    }
}

fn float_clouds(share: f64) -> &'static str {
    if share == 0.0 {
        "CLR"
    } else if share > 0.0 && share <= 25.0 {
        "FEW"
    } else if share > 25.0 && share <= 50.0 {
        "SCT"
    } else if share > 50.0 && share <= 87.0 {
        "BKN"
    } else if share > 87.0 && share <= 100.0 {
        "OVC"
    } else {
        "CLR"
    }
}

#[test]
fn wind_agrees_with_floating_point() {
    let mut compared = 0;
    for speed in (-3_000_i32..75_000).step_by(37) {
        let gust = speed + 2_113;
        if near_tie(i64::from(speed) * 194_384, 100_000_000)
            || near_tie(i64::from(gust) * 194_384, 100_000_000)
        {
            continue;
        }
        let direction = speed.rem_euclid(361) - 1;
        assert_eq!(
            format_wind(Some(direction), exact(speed), exact(gust)),
            float_wind(direction, float(speed), float(gust)),
            "speed {} gust {}",
            speed,
            gust
        );
        compared += 1;
    }
    assert!(compared > 2_000);
}

#[test]
fn metric_visibility_agrees_with_floating_point() {
    let mut compared = 0;
    for metres in (-500_000_i32..12_000_000).step_by(7_919) {
        if near_tie(i64::from(metres), 100_000) {
            continue;
        }
        assert_eq!(
            format_visibility(exact(metres), Units::Metric, &[]),
            float_visibility(float(metres), Units::Metric, false),
            "metres {}",
            metres
        );
        compared += 1;
    }
    assert!(compared > 1_500);
}

#[test]
fn imperial_visibility_agrees_with_floating_point() {
    let mut compared = 0;
    for metres in (-3_000_000_i32..40_000_000).step_by(7_919).chain([10_000_000, 1_609_344, 0]) {
        let whole = i64::from(metres).div_euclid(1_609_344);
        if near_tie(i64::from(metres) * 4, 1_609_344)
            || near_tie((i64::from(metres) - whole * 1_609_344) * 4, 1_609_344)
        {
            continue;
        }
        for (codes, reducing) in [(vec![], false), (vec![800], false), (vec![500], true)] {
            assert_eq!(
                format_visibility(exact(metres), Units::Imperial, &codes),
                float_visibility(float(metres), Units::Imperial, reducing),
                "metres {}",
                metres
            );
        }
        compared += 1;
    }
    assert!(compared > 5_000);
}

#[test]
fn temperature_agrees_with_floating_point() {
    let mut compared = 0;
    for temperature in (-90_000_i32..60_000).step_by(131) {
        let dew_point = temperature - 4_321;
        if near_tie(i64::from(temperature), 1_000) || near_tie(i64::from(dew_point), 1_000) {
            continue;
        }
        assert_eq!(
            format_temp_dew(exact(temperature), exact(dew_point), None),
            format!("{}/{}", float_degrees(float(temperature)), float_degrees(float(dew_point))),
            "temperature {}",
            temperature
        );
        compared += 1;
    }
    assert!(compared > 1_000);
}

#[test]
fn derived_dew_point_agrees_with_floating_point() {
    let mut compared = 0;
    for temperature in (-60_000_i32..50_000).step_by(1_733) {
        for humidity in (0_i32..=100_000).step_by(611) {
            let fifths = 5 * i64::from(temperature) - (100_000 - i64::from(humidity));
            if near_tie(i64::from(temperature), 1_000) || near_tie(fifths, 5_000) {
                continue;
            }
            if fifths.abs() < 5 {
                continue;
            }
            let dew_point = float(temperature) - ((100.0 - float(humidity)) / 5.0);
            assert_eq!(
                format_temp_dew(exact(temperature), None, exact(humidity)),
                format!("{}/{}", float_degrees(float(temperature)), float_degrees(dew_point)),
                "temperature {} humidity {}",
                temperature,
                humidity
            );
            compared += 1;
        }
    }
    assert!(compared > 10_000);
}

#[test]
fn pressure_agrees_with_floating_point() {
    let mut compared = 0;
    for pressure in (850_000_i32..1_090_000).step_by(53) {
        if near_tie(i64::from(pressure), 1_000) || near_tie(i64::from(pressure) * 2_953, 1_000_000) {
            continue;
        }
        for units in [Units::Metric, Units::Imperial] {
            assert_eq!(
                format_pressure(exact(pressure), units),
                float_pressure(float(pressure), units),
                "pressure {}",
                pressure
            );
        }
        compared += 1;
    }
    assert!(compared > 4_000);
}

#[test]
fn clouds_agree_with_floating_point() {
    for share in (-5_000_i32..110_000).step_by(250).chain([1, 25_001, 50_001, 87_001, 100_001]) {
        assert_eq!(format_clouds(exact(share)), float_clouds(float(share)), "share {}", share);
    }
}
