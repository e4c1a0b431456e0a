//! The forecast section that may close a report.

use crate::clock::{in_calendar, time_of_day_at, utc_time_of_day, TimeOfDay};
use crate::fields::{
    format_pressure, format_temp_dew, format_visibility, format_weather_conditions, format_wind,
    knots_of, lemma_clear_visibility, lemma_pressure_token_end, lemma_wind_shows_gust,
    pressure_token, temp_dew_token, visibility_token, wind_token,
};
use crate::phenomena::{lemma_line_is_empty_without_words, phenomena_line, phenomena_words};
use crate::record::{ForecastEntry, Units};
use crate::text::{contains_char, push_zero_padded, trimmed};
use vstd::prelude::*;
use vstd::string::*;

verus! {

/// Whether a forecast hour is worth reporting: it brings weather, a
/// visibility token other than `9999`, or a gust.
pub open spec fn is_significant(entry: ForecastEntry, units: Units) -> bool {
    ||| phenomena_line(entry.weather_codes@).len() > 0
    ||| visibility_token(entry.visibility_m, units, entry.weather_codes@) != "9999"@
    ||| wind_token(entry.wind_direction_deg, entry.wind_speed_ms, entry.wind_gust_ms).contains('G')
}

/// A forecast hour is significant exactly when one of its codes is shown in
/// the phenomena line, or its visibility is missing, not metric, under 9950
/// metres or from 10 050 metres on, or its wind has a direction that is not
/// negative and a gust that rounds to a positive number of knots. In
/// imperial units every hour is significant.
pub proof fn lemma_significant_hour(entry: ForecastEntry, units: Units)
    ensures
        is_significant(entry, units) <==> (phenomena_words(entry.weather_codes@).len() > 0
            || units == Units::Imperial || entry.visibility_m is None
            || entry.visibility_m->0.scaled() < 9_950_000 || entry.visibility_m->0.scaled()
            >= 10_050_000 || (entry.wind_direction_deg is Some && entry.wind_direction_deg->0 >= 0
            && knots_of(entry.wind_gust_ms) > 0)),
{
    lemma_line_is_empty_without_words(entry.weather_codes@);
    lemma_clear_visibility(entry.visibility_m, units, entry.weather_codes@);
    lemma_wind_shows_gust(entry.wind_direction_deg, entry.wind_speed_ms, entry.wind_gust_ms);
}

/// The forecast group of one hour: a space, `FCST`, the time, and the wind,
/// visibility, phenomena, temperature and pressure tokens, each after a
/// space. An empty phenomena line leaves two spaces in a row.
pub open spec fn segment_text(entry: ForecastEntry, units: Units, time: TimeOfDay) -> Seq<char> {
    " FCST "@ + time.text() + " "@ + wind_token(
        entry.wind_direction_deg,
        entry.wind_speed_ms,
        entry.wind_gust_ms,
    ) + " "@ + visibility_token(entry.visibility_m, units, entry.weather_codes@) + " "@
        + phenomena_line(entry.weather_codes@) + " "@ + temp_dew_token(
        entry.temperature_c,
        entry.dew_point_c,
        entry.humidity_pct,
    ) + " "@ + pressure_token(entry.pressure_hpa, units)
}

/// What one hour adds to the section at the given time: its group where the
/// hour is significant, else nothing.
pub open spec fn segment_at(entry: ForecastEntry, units: Units, time: TimeOfDay) -> Seq<char> {
    if is_significant(entry, units) {
        segment_text(entry, units, time)
    } else {
        Seq::empty()
    }
}

/// What one hour adds to the section: its group at the UTC time of its
/// timestamp, or nothing where the timestamp lies outside the calendar.
pub open spec fn segment_of(entry: ForecastEntry, units: Units) -> Seq<char> {
    if in_calendar(entry.timestamp_unix as int) {
        segment_at(entry, units, time_of_day_at(entry.timestamp_unix as int))
    } else {
        Seq::empty()
    }
}

/// The groups of all hours, in the order of the hours.
pub open spec fn trend_segments(forecast: Seq<ForecastEntry>, units: Units) -> Seq<char>
    decreases forecast.len(),
{
    if forecast.len() == 0 {
        Seq::empty()
    } else {
        trend_segments(forecast.drop_last(), units) + segment_of(forecast.last(), units)
    }
}

/// The forecast section: the groups of all hours without the spaces at the
/// two ends.
pub open spec fn trend_text(forecast: Seq<ForecastEntry>, units: Units) -> Seq<char> {
    trimmed(trend_segments(forecast, units))
}

/// Renders what one forecast hour adds to the section when its time of day is
/// `time`.
pub fn trend_segment(entry: &ForecastEntry, units: Units, time: TimeOfDay) -> (segment: String)
    ensures
        segment@ == segment_at(*entry, units, time),
{
    let wind = format_wind(entry.wind_direction_deg, entry.wind_speed_ms, entry.wind_gust_ms);
    let visibility = format_visibility(entry.visibility_m, units, entry.weather_codes.as_slice());
    let weather = format_weather_conditions(entry.weather_codes.as_slice());
    let temp_dew = format_temp_dew(entry.temperature_c, entry.dew_point_c, entry.humidity_pct);
    let pressure = format_pressure(entry.pressure_hpa, units);
    let clear = String::from_str("9999");
    let mut segment = String::new();
    if !weather.as_str().is_empty() || !(visibility == clear) || contains_char(wind.as_str(), 'G') {
        segment.append(" FCST ");
        push_zero_padded(&mut segment, time.hour as i32, 2);
        push_zero_padded(&mut segment, time.minute as i32, 2);
        segment.append("Z ");
        segment.append(wind.as_str());
        segment.append(" ");
        segment.append(visibility.as_str());
        segment.append(" ");
        segment.append(weather.as_str());
        segment.append(" ");
        segment.append(temp_dew.as_str());
        segment.append(" ");
        segment.append(pressure.as_str());
        proof {
            reveal_strlit("Z ");
            reveal_strlit("Z");
            reveal_strlit(" ");
            assert("Z "@ =~= "Z"@ + " "@);
            assert(segment@ =~= segment_text(*entry, units, time));
        }
    }
    segment
}

/// The groups of all hours, when there are any, begin with a space and an
/// `F` and do not end in a space: trimming takes off the first space only.
pub proof fn lemma_trend_is_its_groups(forecast: Seq<ForecastEntry>, units: Units)
    ensures
        trend_segments(forecast, units).len() == 0 ==> trend_text(forecast, units).len() == 0,
        trend_segments(forecast, units).len() > 0 ==> trend_text(forecast, units)
            == trend_segments(forecast, units).drop_first(),
        trend_segments(forecast, units).len() > 0 ==> trend_text(forecast, units).len() > 0,
        trend_segments(forecast, units).len() > 0 ==> trend_segments(forecast, units).first()
            == ' ',
        trend_segments(forecast, units).len() > 0 ==> trend_text(forecast, units).first() == 'F',
        trend_segments(forecast, units).len() > 0 ==> trend_text(forecast, units).last() != ' ',
{
    lemma_trend_segments_ends(forecast, units);
    let all = trend_segments(forecast, units);
    if all.len() > 0 {
        assert(trimmed(all) == all.drop_first()) by {
            reveal_with_fuel(trimmed, 2);
        }
    }
}

/// The groups of all hours are empty, or begin with a space and an `F` and
/// end in something other than a space.
proof fn lemma_trend_segments_ends(forecast: Seq<ForecastEntry>, units: Units)
    ensures
        trend_segments(forecast, units).len() != 1,
        trend_segments(forecast, units).len() > 0 ==> trend_segments(forecast, units)[0] == ' ',
        trend_segments(forecast, units).len() > 0 ==> trend_segments(forecast, units)[1] == 'F',
        trend_segments(forecast, units).len() > 0 ==> trend_segments(forecast, units).last()
            != ' ',
    decreases forecast.len(),
{
    if forecast.len() > 0 {
        lemma_trend_segments_ends(forecast.drop_last(), units);
        let entry = forecast.last();
        let group = segment_of(entry, units);
        if group.len() > 0 {
            let time = time_of_day_at(entry.timestamp_unix as int);
            lemma_pressure_token_end(entry.pressure_hpa, units);
            reveal_strlit(" FCST ");
            assert(group == segment_text(entry, units, time));
            assert(group[0] == ' ');
            assert(group[1] == 'F');
            assert(group.last() == pressure_token(entry.pressure_hpa, units).last());
        }
    }
}

/// Renders the forecast section: the group of every significant hour whose
/// timestamp lies in the calendar, in the order of the hours, a single space
/// between one group and the next.
pub fn generate_trend_section(forecast: &[ForecastEntry], units: Units) -> (trend: String)
    ensures
        trend@ == trend_text(forecast@, units),
{
    let mut all = String::new();
    let mut at: usize = 0;
    assert(forecast@.take(0) =~= Seq::<ForecastEntry>::empty());
    while at < forecast.len()
        invariant
            at <= forecast.len(),
            all@ == trend_segments(forecast@.take(at as int), units),
        decreases forecast.len() - at,
    {
        let entry = &forecast[at];
        proof {
            let upto = forecast@.take(at as int + 1);
            assert(upto.drop_last() =~= forecast@.take(at as int));
            assert(upto.last() == *entry);
        }
        match utc_time_of_day(entry.timestamp_unix) {
            Some(time) => {
                let group = trend_segment(entry, units, time);
                all.append(group.as_str());
            },
            None => {
                assert(all@ + Seq::<char>::empty() =~= all@);
            },
        }
        at = at + 1;
    }
    proof {
        assert(forecast@.take(at as int) =~= forecast@);
        lemma_trend_is_its_groups(forecast@, units);
    }
    let len = all.as_str().unicode_len();
    if len == 0 {
        all
    } else {
        String::from_str(all.as_str().substring_char(1, len))
    }
}

} // verus!
