//! Conversions between the units of an observation and those of a report.

use crate::fixed::Fixed;
use crate::rounding::{lemma_round_half_away_between, round_half_away, round_ratio};
use vstd::prelude::*;

verus! {

/// Thousandths of a metre in one statute mile.
pub const MILLIMETRES_PER_MILE: i64 = 1_609_344;

/// A speed in metres per second as whole knots, one metre per second being
/// 1.94384 knots.
pub open spec fn knots(speed: Fixed) -> int {
    round_half_away(speed.scaled() * 194_384, 100_000_000)
}

/// A pressure in hectopascals as hundredths of an inch of mercury, one
/// hectopascal being 0.02953 inches.
pub open spec fn inhg_hundredths(pressure: Fixed) -> int {
    round_half_away(pressure.scaled() * 2_953, 1_000_000)
}

/// A distance in metres as quarters of a statute mile, one mile being
/// 1609.344 metres.
pub open spec fn quarter_miles(distance: Fixed) -> int {
    round_half_away(distance.scaled() * 4, 1_609_344)
}

/// The whole statute miles in a distance in metres, rounded down.
pub open spec fn whole_miles(distance: Fixed) -> int {
    distance.scaled() / 1_609_344
}

/// The quarter miles nearest to what a distance leaves over its whole miles:
/// from none to four.
pub open spec fn odd_quarters(distance: Fixed) -> int {
    round_half_away((distance.scaled() - whole_miles(distance) * 1_609_344) * 4, 1_609_344)
}

/// Converts a speed in metres per second to whole knots.
pub fn ms_to_knots(speed: Fixed) -> (nearest: i32)
    ensures
        nearest == knots(speed),
{
    proof {
        lemma_round_half_away_between(
            speed.scaled() * 194_384,
            100_000_000,
            -4_200_000,
            4_200_000,
        );
    }
    round_ratio((speed.thousandths as i64) * 194_384, 100_000_000) as i32
}

/// Converts a pressure in hectopascals to hundredths of an inch of mercury.
pub fn hpa_to_inhg_hundredths(pressure: Fixed) -> (nearest: i32)
    ensures
        nearest == inhg_hundredths(pressure),
{
    proof {
        lemma_round_half_away_between(
            pressure.scaled() * 2_953,
            1_000_000,
            -6_400_000,
            6_400_000,
        );
    }
    round_ratio((pressure.thousandths as i64) * 2_953, 1_000_000) as i32
}

/// Converts a distance in metres to quarters of a statute mile.
pub fn meters_to_quarter_miles(distance: Fixed) -> (nearest: i32)
    ensures
        nearest == quarter_miles(distance),
        -5_400 <= nearest <= 5_400,
{
    proof {
        lemma_round_half_away_between(distance.scaled() * 4, 1_609_344, -5_400, 5_400);
    }
    round_ratio((distance.thousandths as i64) * 4, MILLIMETRES_PER_MILE) as i32
}

/// Converts a distance in metres to whole statute miles, rounded down, and
/// the quarter miles nearest to the rest.
pub fn meters_to_statute_miles(distance: Fixed) -> (miles: (i32, i32))
    ensures
        miles.0 == whole_miles(distance),
        miles.1 == odd_quarters(distance),
        0 <= miles.1 <= 4,
        -1_335 <= miles.0 <= 1_334,
{
    let length: i64 = distance.thousandths as i64;
    let whole: i64 = if length >= 0 {
        length / MILLIMETRES_PER_MILE
    } else {
        -((MILLIMETRES_PER_MILE - 1 - length) / MILLIMETRES_PER_MILE)
    };
    let rest: i64 = length - whole * MILLIMETRES_PER_MILE;
    proof {
        lemma_round_half_away_between(rest * 4, 1_609_344, 0, 4);
    }
    let quarters = round_ratio(rest * 4, MILLIMETRES_PER_MILE);
    (whole as i32, quarters as i32)
}

} // verus!
