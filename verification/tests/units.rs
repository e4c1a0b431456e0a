use metgen::fixed::Fixed;
use metgen::fraction::{gcd, reduce_fraction};
use metgen::rounding::round_ratio;
use metgen::units::{
    hpa_to_inhg_hundredths, meters_to_quarter_miles, meters_to_statute_miles, ms_to_knots,
};

#[test]
fn gcd_of_positive_numbers() {
    assert_eq!(gcd(12, 18), 6);
    assert_eq!(gcd(18, 12), 6);
    assert_eq!(gcd(17, 5), 1);
    assert_eq!(gcd(4, 4), 4);
    assert_eq!(gcd(1, 4), 1);
    assert_eq!(gcd(2, 4), 2);
    assert_eq!(gcd(3, 4), 1);
}

#[test]
fn gcd_with_zero_is_the_other_magnitude() {
    assert_eq!(gcd(0, 4), 4);
    assert_eq!(gcd(7, 0), 7);
    assert_eq!(gcd(-7, 0), 7);
    assert_eq!(gcd(0, 0), 0);
}

#[test]
fn gcd_ignores_signs() {
    assert_eq!(gcd(-12, 18), 6);
    assert_eq!(gcd(12, -18), 6);
    assert_eq!(gcd(-12, -18), 6);
    assert_eq!(gcd(-2, 4), 2);
}

#[test]
fn gcd_at_the_edge_of_the_range() {
    assert_eq!(gcd(i32::MAX, i32::MAX), i32::MAX);
    assert_eq!(gcd(i32::MIN, 6), 2);
    assert_eq!(gcd(6, i32::MIN), 2);
    assert_eq!(gcd(i32::MIN, -1), 1);
    assert_eq!(gcd(i32::MIN, i32::MAX), 1);
    assert_eq!(gcd(i32::MIN, 1 << 30), 1 << 30);
}

#[test]
fn reduce_fraction_divides_by_the_gcd() {
    assert_eq!(reduce_fraction(2, 4), (1, 2));
    assert_eq!(reduce_fraction(1, 4), (1, 4));
    assert_eq!(reduce_fraction(3, 4), (3, 4));
    assert_eq!(reduce_fraction(4, 4), (1, 1));
    assert_eq!(reduce_fraction(0, 4), (0, 1));
    assert_eq!(reduce_fraction(12, 18), (2, 3));
    assert_eq!(reduce_fraction(5, 0), (1, 0));
}

#[test]
fn reduce_fraction_keeps_signs() {
    assert_eq!(reduce_fraction(-2, 4), (-1, 2));
    assert_eq!(reduce_fraction(2, -4), (1, -2));
    assert_eq!(reduce_fraction(-6, -4), (-3, -2));
    assert_eq!(reduce_fraction(i32::MIN, 4), (i32::MIN / 4, 1));
}

#[test]
fn round_ratio_rounds_to_nearest() {
    assert_eq!(round_ratio(7, 2), 4);
    assert_eq!(round_ratio(5, 2), 3);
    assert_eq!(round_ratio(4, 3), 1);
    assert_eq!(round_ratio(5, 3), 2);
    assert_eq!(round_ratio(0, 9), 0);
    assert_eq!(round_ratio(1, 3), 0);
    assert_eq!(round_ratio(10, 1), 10);
}

#[test]
fn round_ratio_sends_ties_away_from_zero() {
    assert_eq!(round_ratio(1, 2), 1);
    assert_eq!(round_ratio(-1, 2), -1);
    assert_eq!(round_ratio(3, 2), 2);
    assert_eq!(round_ratio(-3, 2), -2);
    assert_eq!(round_ratio(-5, 2), -3);
    assert_eq!(round_ratio(2_500, 1_000), 3);
    assert_eq!(round_ratio(-2_500, 1_000), -3);
}

#[test]
fn round_ratio_of_negative_numbers() {
    assert_eq!(round_ratio(-4, 3), -1);
    assert_eq!(round_ratio(-5, 3), -2);
    assert_eq!(round_ratio(-1, 3), 0);
}

#[test]
fn round_ratio_at_the_edge_of_the_range() {
    assert_eq!(round_ratio(i64::MAX, 1), i64::MAX);
    assert_eq!(round_ratio(i64::MIN, 1), i64::MIN);
    assert_eq!(round_ratio(i64::MAX, i64::MAX), 1);
    assert_eq!(round_ratio(i64::MIN, i64::MAX), -1);
    assert_eq!(round_ratio(i64::MAX, 2), 4_611_686_018_427_387_904);
    assert_eq!(round_ratio(i64::MIN, 2), -4_611_686_018_427_387_904);
    assert_eq!(round_ratio(1, i64::MAX), 0);
    assert_eq!(round_ratio(4_611_686_018_427_387_904, i64::MAX), 1);
    assert_eq!(round_ratio(4_611_686_018_427_387_903, i64::MAX), 0);
}

#[test]
fn knots_from_metres_per_second() {
    assert_eq!(ms_to_knots(Fixed::from_thousandths(5_000)), 10);
    assert_eq!(ms_to_knots(Fixed::from_thousandths(8_000)), 16);
    assert_eq!(ms_to_knots(Fixed::from_thousandths(5_100)), 10);
    assert_eq!(ms_to_knots(Fixed::from_thousandths(0)), 0);
    assert_eq!(ms_to_knots(Fixed::from_thousandths(1_000)), 2);
    assert_eq!(ms_to_knots(Fixed::from_thousandths(-1_500)), -3);
    assert_eq!(ms_to_knots(Fixed::from_thousandths(3_125_000)), 6_075);
    assert_eq!(ms_to_knots(Fixed::from_thousandths(i32::MAX)), 4_174_365);
    assert_eq!(ms_to_knots(Fixed::from_thousandths(i32::MIN)), -4_174_365);
}

#[test]
fn inches_of_mercury_from_hectopascals() {
    assert_eq!(hpa_to_inhg_hundredths(Fixed::from_thousandths(1_013_250)), 2_992);
    assert_eq!(hpa_to_inhg_hundredths(Fixed::from_thousandths(1_013_000)), 2_991);
    assert_eq!(hpa_to_inhg_hundredths(Fixed::from_thousandths(0)), 0);
    assert_eq!(hpa_to_inhg_hundredths(Fixed::from_thousandths(i32::MAX)), 6_341_519);
}

#[test]
fn quarter_miles_from_metres() {
    assert_eq!(meters_to_quarter_miles(Fixed::from_thousandths(800_000)), 2);
    assert_eq!(meters_to_quarter_miles(Fixed::from_thousandths(1_609_344)), 4);
    assert_eq!(meters_to_quarter_miles(Fixed::from_thousandths(201_167)), 0);
    assert_eq!(meters_to_quarter_miles(Fixed::from_thousandths(201_168)), 1);
    assert_eq!(meters_to_quarter_miles(Fixed::from_thousandths(-201_168)), -1);
    assert_eq!(meters_to_quarter_miles(Fixed::from_thousandths(16_093_440)), 40);
}

#[test]
fn statute_miles_from_metres() {
    assert_eq!(meters_to_statute_miles(Fixed::from_thousandths(0)), (0, 0));
    assert_eq!(meters_to_statute_miles(Fixed::from_thousandths(800_000)), (0, 2));
    assert_eq!(meters_to_statute_miles(Fixed::from_thousandths(1_609_343)), (0, 4));
    assert_eq!(meters_to_statute_miles(Fixed::from_thousandths(1_609_344)), (1, 0));
    assert_eq!(meters_to_statute_miles(Fixed::from_thousandths(2_000_000)), (1, 1));
    assert_eq!(meters_to_statute_miles(Fixed::from_thousandths(8_000_000)), (4, 4));
    assert_eq!(meters_to_statute_miles(Fixed::from_thousandths(10_000_000)), (6, 1));
    assert_eq!(meters_to_statute_miles(Fixed::from_thousandths(-1)), (-1, 4));
    assert_eq!(meters_to_statute_miles(Fixed::from_thousandths(-1_609_344)), (-1, 0));
    assert_eq!(meters_to_statute_miles(Fixed::from_thousandths(-1_609_345)), (-2, 4));
    assert_eq!(meters_to_statute_miles(Fixed::from_thousandths(-800_000)), (-1, 2));
    assert_eq!(meters_to_statute_miles(Fixed::from_thousandths(i32::MAX)), (1_334, 2));
    assert_eq!(meters_to_statute_miles(Fixed::from_thousandths(i32::MIN)), (-1_335, 2));
}

#[test]
fn fixed_from_whole_units() {
    assert_eq!(Fixed::from_whole(12).thousandths, 12_000);
    assert_eq!(Fixed::from_whole(-5).thousandths, -5_000);
    assert_eq!(Fixed::from_whole(i16::MAX).thousandths, 32_767_000);
    assert_eq!(Fixed::from_thousandths(-5_300), Fixed { thousandths: -5_300 });
}
