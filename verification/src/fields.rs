//! The tokens of a report, each rendered from the readings it shows.

use crate::fixed::Fixed;
use crate::fraction::{lemma_gcd_bounded, lemma_lowest_terms, lowest_terms, reduce_fraction};
use crate::phenomena::{
    abbreviation, any_reducing, phenomena_line, phenomena_words, reduces_visibility,
    FIRST_CLOUD_CODE,
};
use crate::record::Units;
use crate::rounding::{
    lemma_round_half_away_between, lemma_round_half_away_nearest, lemma_round_half_away_odd,
    lemma_round_half_away_unique, round_half_away, round_ratio,
};
use crate::text::{
    is_digit, lemma_contains_in_concatenation, lemma_zero_padded_lacks, lemma_zero_padded_last,
    lemma_zero_padded_shape, push_zero_padded, zero_padded,
};
use crate::units::{
    hpa_to_inhg_hundredths, inhg_hundredths, knots, meters_to_quarter_miles,
    meters_to_statute_miles, ms_to_knots, odd_quarters, quarter_miles, whole_miles,
    MILLIMETRES_PER_MILE,
};
use vstd::prelude::*;
use vstd::string::*;

verus! {

/// Thousandths of a metre in the visibility that stands for "ten kilometres
/// or more".
pub const UNLIMITED_VISIBILITY: i32 = 10_000_000;

/// The whole knots of a wind reading, none counting as calm.
pub open spec fn knots_of(speed: Option<Fixed>) -> int {
    match speed {
        Some(s) => knots(s),
        None => 0,
    }
}

/// The wind token: direction in three digits, speed in two, a gust group
/// where the gust rounds to a positive number of knots, then `KT`. Without a
/// direction, or with a negative one, the wind is variable and calm.
pub open spec fn wind_token(
    direction: Option<i32>,
    speed: Option<Fixed>,
    gust: Option<Fixed>,
) -> Seq<char> {
    match direction {
        Some(degrees) if degrees >= 0 => {
            let gust_group = if knots_of(gust) > 0 {
                "G"@ + zero_padded(knots_of(gust), 2)
            } else {
                Seq::empty()
            };
            zero_padded(degrees as int, 3) + zero_padded(knots_of(speed), 2) + gust_group + "KT"@
        },
        _ => "VRB00KT"@,
    }
}

/// Without a direction the wind token is `VRB00KT`, whatever the speed and
/// the gust; with a negative one too.
pub proof fn lemma_wind_without_direction(
    direction: Option<i32>,
    speed: Option<Fixed>,
    gust: Option<Fixed>,
)
    requires
        direction is None || direction->0 < 0,
    ensures
        wind_token(direction, speed, gust) == "VRB00KT"@,
{
}

/// The wind token holds a `G` exactly when it has a gust group: when there
/// is a direction that is not negative and the gust rounds to a positive
/// number of knots.
pub proof fn lemma_wind_shows_gust(direction: Option<i32>, speed: Option<Fixed>, gust: Option<Fixed>)
    ensures
        wind_token(direction, speed, gust).contains('G') <==> direction is Some && direction->0
            >= 0 && knots_of(gust) > 0,
{
    reveal_strlit("VRB00KT");
    reveal_strlit("KT");
    reveal_strlit("G");
    match direction {
        Some(degrees) if degrees >= 0 => {
            let heading = zero_padded(degrees as int, 3);
            let pace = zero_padded(knots_of(speed), 2);
            let gust_group = if knots_of(gust) > 0 {
                "G"@ + zero_padded(knots_of(gust), 2)
            } else {
                Seq::empty()
            };
            lemma_zero_padded_lacks(degrees as int, 3, 'G');
            lemma_zero_padded_lacks(knots_of(speed), 2, 'G');
            lemma_zero_padded_lacks(knots_of(gust), 2, 'G');
            lemma_contains_in_concatenation(heading, pace, 'G');
            lemma_contains_in_concatenation(heading + pace, gust_group, 'G');
            lemma_contains_in_concatenation(heading + pace + gust_group, "KT"@, 'G');
            lemma_contains_in_concatenation("G"@, zero_padded(knots_of(gust), 2), 'G');
            assert("G"@[0] == 'G');
            assert(!"KT"@.contains('G'));
        },
        _ => {
            assert(!"VRB00KT"@.contains('G'));
        },
    }
}

/// Renders the wind token.
pub fn format_wind(direction: Option<i32>, speed: Option<Fixed>, gust: Option<Fixed>) -> (token:
    String)
    ensures
        token@ == wind_token(direction, speed, gust),
{
    match direction {
        Some(degrees) if degrees >= 0 => {
            let speed_knots = match speed {
                Some(s) => ms_to_knots(s),
                None => 0,
            };
            let gust_knots = match gust {
                Some(g) => ms_to_knots(g),
                None => 0,
            };
            let mut token = String::new();
            push_zero_padded(&mut token, degrees, 3);
            push_zero_padded(&mut token, speed_knots, 2);
            if gust_knots > 0 {
                token.append("G");
                push_zero_padded(&mut token, gust_knots, 2);
            }
            token.append("KT");
            assert(token@ =~= wind_token(direction, speed, gust));
            token
        },
        _ => String::from_str("VRB00KT"),
    }
}

/// The numeral of `n` as it stands in running text, with a minus sign where
/// `n` is negative.
pub open spec fn numeral(n: int) -> Seq<char> {
    zero_padded(n, 0)
}

/// Metric visibility: metres rounded to the nearest hundred, in four digits;
/// ten kilometres exactly is written `9999`.
pub open spec fn metric_visibility(distance: Fixed) -> Seq<char> {
    let hundreds = round_half_away(distance.scaled(), 100_000);
    if hundreds == 100 {
        "9999"@
    } else {
        zero_padded(hundreds * 100, 4)
    }
}

/// A number of quarter miles as a fraction of a mile in lowest terms, or as
/// whole miles where the fraction comes out even.
pub open spec fn sub_mile_visibility(quarters: int) -> Seq<char> {
    let (num, den) = lowest_terms(quarters, 4);
    if den == 1 {
        numeral(num) + "SM"@
    } else {
        numeral(num) + "/"@ + numeral(den) + "SM"@
    }
}

/// Whole miles and a remainder of `quarters` quarter miles: the remainder is
/// left out where it is zero, carried into the miles where it makes a whole
/// one, and otherwise follows the miles as a fraction in lowest terms.
pub open spec fn mixed_visibility(whole: int, quarters: int) -> Seq<char> {
    if quarters == 0 {
        numeral(whole) + "SM"@
    } else {
        let (num, den) = lowest_terms(quarters, 4);
        if den == 1 {
            numeral(whole + num) + "SM"@
        } else {
            numeral(whole) + " "@ + numeral(num) + "/"@ + numeral(den) + "SM"@
        }
    }
}

/// Imperial visibility in statute miles and quarters of one.
///
/// Ten kilometres exactly, with no weather that reduces visibility, is
/// `10SM`. Under one mile the distance is rounded to quarter miles as a
/// whole; from one mile on, the whole miles are taken off first and the rest
/// is rounded to quarter miles.
pub open spec fn imperial_visibility(distance: Fixed, codes: Seq<i32>) -> Seq<char> {
    if distance.scaled() == UNLIMITED_VISIBILITY && !any_reducing(codes) {
        "10SM"@
    } else if distance.scaled() < MILLIMETRES_PER_MILE {
        sub_mile_visibility(quarter_miles(distance))
    } else {
        mixed_visibility(whole_miles(distance), odd_quarters(distance))
    }
}

/// The visibility token; four slashes where the reading is missing.
pub open spec fn visibility_token(visibility: Option<Fixed>, units: Units, codes: Seq<i32>) -> Seq<
    char,
> {
    match visibility {
        None => "////"@,
        Some(distance) => match units {
            Units::Metric => metric_visibility(distance),
            Units::Imperial => imperial_visibility(distance, codes),
        },
    }
}

/// Ten kilometres of visibility read `9999` in metric units whatever the
/// weather, and `10SM` in imperial units where no weather reduces visibility.
pub proof fn lemma_ten_kilometres(distance: Fixed, codes: Seq<i32>)
    requires
        distance.scaled() == UNLIMITED_VISIBILITY,
    ensures
        visibility_token(Some(distance), Units::Metric, codes) == "9999"@,
        !any_reducing(codes) ==> visibility_token(Some(distance), Units::Imperial, codes)
            == "10SM"@,
{
    lemma_round_half_away_between(UNLIMITED_VISIBILITY as int, 100_000, 100, 100);
}

/// The visibility token is `9999` in metric units for a reading from 9950
/// metres to just under 10 050, and in no other case: a missing reading and
/// a reading in imperial units never give it.
pub proof fn lemma_clear_visibility(visibility: Option<Fixed>, units: Units, codes: Seq<i32>)
    ensures
        visibility_token(visibility, units, codes) == "9999"@ <==> units == Units::Metric
            && visibility is Some && 9_950_000 <= visibility->0.scaled() < 10_050_000,
{
    reveal_strlit("9999");
    reveal_strlit("////");
    reveal_strlit("10SM");
    reveal_strlit("SM");
    let token = visibility_token(visibility, units, codes);
    match visibility {
        None => {
            assert(token[0] != "9999"@[0]);
        },
        Some(distance) => {
            let length = distance.scaled();
            match units {
                Units::Metric => {
                    let hundreds = round_half_away(length, 100_000);
                    lemma_round_half_away_nearest(length, 100_000);
                    if 9_950_000 <= length < 10_050_000 {
                        lemma_round_half_away_unique(length, 100_000, 100);
                    }
                    if hundreds != 100 {
                        lemma_zero_padded_last(hundreds * 100, 4);
                        assert(token.last() == '0');
                        assert("9999"@.last() == '9');
                    }
                },
                Units::Imperial => {
                    assert(token.last() == 'M');
                    assert("9999"@.last() == '9');
                },
            }
        },
    }
}

/// Whether some code of `codes` reduces visibility.
pub fn has_reducing_conditions(codes: &[i32]) -> (found: bool)
    ensures
        found == any_reducing(codes@),
{
    let mut at: usize = 0;
    while at < codes.len()
        invariant
            at <= codes.len(),
            forall|i: int| 0 <= i < at ==> !reduces_visibility(#[trigger] codes@[i]),
        decreases codes.len() - at,
    {
        let code = codes[at];
        if 200 <= code && code < FIRST_CLOUD_CODE {
            return true;
        }
        at = at + 1;
    }
    false
}

/// Divides `quarters / 4` by the greatest common divisor of the two.
fn reduce_quarters(quarters: i32) -> (lowest: (i32, i32))
    requires
        -10_000 <= quarters <= 10_000,
    ensures
        lowest.0 == lowest_terms(quarters as int, 4).0,
        lowest.1 == lowest_terms(quarters as int, 4).1,
        -10_000 <= lowest.0 <= 10_000,
        -4 <= lowest.1 <= 4,
{
    proof {
        lemma_gcd_bounded(quarters as int, 4);
        lemma_lowest_terms(quarters as int, 4);
    }
    reduce_fraction(quarters, 4)
}

/// Appends `sub_mile_visibility(quarters)`.
fn push_sub_mile(token: &mut String, quarters: i32)
    requires
        -10_000 <= quarters <= 10_000,
    ensures
        final(token)@ == old(token)@ + sub_mile_visibility(quarters as int),
{
    let (num, den) = reduce_quarters(quarters);
    push_zero_padded(token, num, 0);
    if den != 1 {
        token.append("/");
        push_zero_padded(token, den, 0);
    }
    token.append("SM");
    assert(token@ =~= old(token)@ + sub_mile_visibility(quarters as int));
}

/// Appends `mixed_visibility(whole, quarters)`.
fn push_mixed(token: &mut String, whole: i32, quarters: i32)
    requires
        -10_000 <= whole <= 10_000,
        0 <= quarters <= 4,
    ensures
        final(token)@ == old(token)@ + mixed_visibility(whole as int, quarters as int),
{
    if quarters == 0 {
        push_zero_padded(token, whole, 0);
    } else {
        let (num, den) = reduce_quarters(quarters);
        if den == 1 {
            push_zero_padded(token, whole + num, 0);
        } else {
            push_zero_padded(token, whole, 0);
            token.append(" ");
            push_zero_padded(token, num, 0);
            token.append("/");
            push_zero_padded(token, den, 0);
        }
    }
    token.append("SM");
    assert(token@ =~= old(token)@ + mixed_visibility(whole as int, quarters as int));
}

/// Renders the visibility token.
pub fn format_visibility(visibility: Option<Fixed>, units: Units, weather_codes: &[i32]) -> (token:
    String)
    ensures
        token@ == visibility_token(visibility, units, weather_codes@),
{
    let distance = match visibility {
        Some(distance) => distance,
        None => {
            return String::from_str("////");
        },
    };
    match units {
        Units::Metric => {
            let hundreds = round_ratio(distance.thousandths as i64, 100_000);
            proof {
                lemma_round_half_away_between(distance.scaled(), 100_000, -21_475, 21_475);
            }
            if hundreds == 100 {
                String::from_str("9999")
            } else {
                let mut token = String::new();
                push_zero_padded(&mut token, (hundreds * 100) as i32, 4);
                token
            }
        },
        Units::Imperial => {
            if distance.thousandths == UNLIMITED_VISIBILITY && !has_reducing_conditions(
                weather_codes,
            ) {
                return String::from_str("10SM");
            }
            let mut token = String::new();
            if (distance.thousandths as i64) < MILLIMETRES_PER_MILE {
                push_sub_mile(&mut token, meters_to_quarter_miles(distance));
            } else {
                let (whole, quarters) = meters_to_statute_miles(distance);
                push_mixed(&mut token, whole, quarters);
            }
            assert(token@ =~= imperial_visibility(distance, weather_codes@));
            token
        },
    }
}

/// The cloud token by share of sky covered: none is `CLR`, up to a quarter
/// `FEW`, up to a half `SCT`, up to 87 percent `BKN`, up to all of it `OVC`.
/// A missing share, and one below zero or above a hundred, reads as `CLR`.
pub open spec fn clouds_token(coverage: Option<Fixed>) -> Seq<char> {
    match coverage {
        Some(share) => {
            let pct = share.scaled();
            if pct <= 0 {
                "CLR"@
            } else if pct <= 25_000 {
                "FEW"@
            } else if pct <= 50_000 {
                "SCT"@
            } else if pct <= 87_000 {
                "BKN"@
            } else if pct <= 100_000 {
                "OVC"@
            } else {
                "CLR"@
            }
        },
        None => "CLR"@,
    }
}

/// A cloud token is one of five words of three letters.
pub proof fn lemma_clouds_token_words(coverage: Option<Fixed>)
    ensures
        clouds_token(coverage).len() == 3,
        clouds_token(coverage) == "CLR"@ || clouds_token(coverage) == "FEW"@ || clouds_token(
            coverage,
        ) == "SCT"@ || clouds_token(coverage) == "BKN"@ || clouds_token(coverage) == "OVC"@,
        coverage is None ==> clouds_token(coverage) == "CLR"@,
{
    reveal_strlit("CLR");
    reveal_strlit("FEW");
    reveal_strlit("SCT");
    reveal_strlit("BKN");
    reveal_strlit("OVC");
}

/// Renders the cloud token.
pub fn format_clouds(coverage: Option<Fixed>) -> (token: String)
    ensures
        token@ == clouds_token(coverage),
{
    let word = match coverage {
        Some(share) => {
            let pct = share.thousandths;
            if pct <= 0 {
                "CLR"
            } else if pct <= 25_000 {
                "FEW"
            } else if pct <= 50_000 {
                "SCT"
            } else if pct <= 87_000 {
                "BKN"
            } else if pct <= 100_000 {
                "OVC"
            } else {
                "CLR"
            }
        },
        None => "CLR",
    };
    String::from_str(word)
}

/// The temperature `num / den` degrees in two digits, rounded to the nearest
/// degree, `M` standing before the magnitude of one below zero.
pub open spec fn degrees_text(num: int, den: int) -> Seq<char>
    recommends
        den > 0,
{
    if num < 0 {
        "M"@ + zero_padded(round_half_away(-num, den), 2)
    } else {
        zero_padded(round_half_away(num, den), 2)
    }
}

/// The dew point in fifths of a thousandth of a degree, estimated from the
/// temperature and the relative humidity: one degree below the temperature
/// for every five percent that the humidity is short of a hundred.
pub open spec fn derived_dew_point(temperature: Fixed, humidity: Fixed) -> int {
    5 * temperature.scaled() - (100_000 - humidity.scaled())
}

/// The temperature and dew point token. The dew point is the reading where
/// there is one, else the estimate from humidity; where the temperature or
/// both of the others are missing, the token is `/// ///`.
pub open spec fn temp_dew_token(
    temperature: Option<Fixed>,
    dew_point: Option<Fixed>,
    humidity: Option<Fixed>,
) -> Seq<char> {
    match (temperature, dew_point, humidity) {
        (Some(t), Some(d), _) => degrees_text(t.scaled(), 1000) + "/"@ + degrees_text(
            d.scaled(),
            1000,
        ),
        (Some(t), None, Some(h)) => degrees_text(t.scaled(), 1000) + "/"@
            + degrees_text(derived_dew_point(t, h), 5000),
        _ => "/// ///"@,
    }
}

/// Appends `degrees_text(num, den)`.
fn push_degrees(token: &mut String, num: i64, den: i64)
    requires
        den >= 1000,
        -20_000_000_000 <= num <= 20_000_000_000,
    ensures
        final(token)@ == old(token)@ + degrees_text(num as int, den as int),
{
    proof {
        lemma_round_half_away_between(num as int, den as int, -20_000_000, 20_000_000);
        lemma_round_half_away_odd(num as int, den as int);
    }
    let nearest = round_ratio(num, den);
    if num < 0 {
        token.append("M");
        push_zero_padded(token, (-nearest) as i32, 2);
    } else {
        push_zero_padded(token, nearest as i32, 2);
    }
    assert(token@ =~= old(token)@ + degrees_text(num as int, den as int));
}

/// Renders the temperature and dew point token.
pub fn format_temp_dew(
    temperature: Option<Fixed>,
    dew_point: Option<Fixed>,
    humidity: Option<Fixed>,
) -> (token: String)
    ensures
        token@ == temp_dew_token(temperature, dew_point, humidity),
{
    match (temperature, dew_point, humidity) {
        (Some(t), Some(d), _) => {
            let mut token = String::new();
            push_degrees(&mut token, t.thousandths as i64, 1000);
            token.append("/");
            push_degrees(&mut token, d.thousandths as i64, 1000);
            assert(token@ =~= temp_dew_token(temperature, dew_point, humidity));
            token
        },
        (Some(t), None, Some(h)) => {
            let fifths: i64 = 5 * (t.thousandths as i64) - (100_000 - (h.thousandths as i64));
            let mut token = String::new();
            push_degrees(&mut token, t.thousandths as i64, 1000);
            token.append("/");
            push_degrees(&mut token, fifths, 5000);
            assert(token@ =~= temp_dew_token(temperature, dew_point, humidity));
            token
        },
        _ => String::from_str("/// ///"),
    }
}

/// The pressure token: `A` and hundredths of an inch of mercury in imperial
/// units, `Q` and whole hectopascals in metric, in four digits either way.
pub open spec fn pressure_token(pressure: Option<Fixed>, units: Units) -> Seq<char> {
    match pressure {
        None => "Q////"@,
        Some(p) => match units {
            Units::Imperial => "A"@ + zero_padded(inhg_hundredths(p), 4),
            Units::Metric => "Q"@ + zero_padded(round_half_away(p.scaled(), 1000), 4),
        },
    }
}

/// The pressure token ends in a digit or a slash.
pub proof fn lemma_pressure_token_end(pressure: Option<Fixed>, units: Units)
    ensures
        pressure_token(pressure, units).len() >= 5,
        is_digit(pressure_token(pressure, units).last()) || pressure_token(pressure, units).last()
            == '/',
{
    reveal_strlit("Q////");
    reveal_strlit("A");
    reveal_strlit("Q");
    match pressure {
        None => {},
        Some(p) => {
            lemma_zero_padded_shape(inhg_hundredths(p), 4);
            lemma_zero_padded_shape(round_half_away(p.scaled(), 1000), 4);
        },
    }
}

/// Renders the pressure token.
pub fn format_pressure(pressure: Option<Fixed>, units: Units) -> (token: String)
    ensures
        token@ == pressure_token(pressure, units),
{
    match pressure {
        None => String::from_str("Q////"),
        Some(p) => {
            let mut token = String::new();
            match units {
                Units::Imperial => {
                    token.append("A");
                    push_zero_padded(&mut token, hpa_to_inhg_hundredths(p), 4);
                },
                Units::Metric => {
                    proof {
                        lemma_round_half_away_between(
                            p.scaled(),
                            1000,
                            -3_000_000,
                            3_000_000,
                        );
                    }
                    token.append("Q");
                    push_zero_padded(&mut token, round_ratio(p.thousandths as i64, 1000) as i32, 4);
                },
            }
            assert(token@ =~= pressure_token(pressure, units));
            token
        },
    }
}

/// Renders the phenomena line: the abbreviations of the codes below the
/// cloud-cover family that the table holds, in the order of the codes, with
/// single spaces between them.
pub fn format_weather_conditions(weather_codes: &[i32]) -> (line: String)
    ensures
        line@ == phenomena_line(weather_codes@),
{
    let mut line = String::new();
    let mut shown: usize = 0;
    let mut at: usize = 0;
    assert(weather_codes@.take(0) =~= Seq::<i32>::empty());
    while at < weather_codes.len()
        invariant
            at <= weather_codes.len(),
            shown <= at,
            shown == phenomena_words(weather_codes@.take(at as int)).len(),
            line@ == phenomena_line(weather_codes@.take(at as int)),
        decreases weather_codes.len() - at,
    {
        let code = weather_codes[at];
        proof {
            let upto = weather_codes@.take(at as int + 1);
            assert(upto.drop_last() =~= weather_codes@.take(at as int));
            assert(upto.last() == code);
        }
        if code < FIRST_CLOUD_CODE {
            match abbreviation(code) {
                Some(word) => {
                    if shown > 0 {
                        line.append(" ");
                    }
                    line.append(word);
                    shown = shown + 1;
                    proof {
                        let before = phenomena_words(weather_codes@.take(at as int));
                        let after = phenomena_words(weather_codes@.take(at as int + 1));
                        assert(after == before.push(word@));
                        assert(after.drop_last() =~= before);
                        reveal_strlit(" ");
                        assert(" "@ =~= seq![' ']);
                        if shown == 1 {
                            assert(line@ =~= word@);
                        }
                    }
                },
                None => {},
            }
        }
        at = at + 1;
    }
    assert(weather_codes@.take(at as int) =~= weather_codes@);
    line
}

} // verus!
