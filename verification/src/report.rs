//! The report line, put together from its tokens.

use crate::clock::{utc_now, ReportTime};
use crate::fields::{
    clouds_token, format_clouds, format_pressure, format_temp_dew, format_visibility,
    format_weather_conditions, format_wind, pressure_token, temp_dew_token, visibility_token,
    wind_token,
};
use crate::phenomena::phenomena_line;
use crate::record::{ObservationRecord, Units};
use crate::text::{lemma_decimal_len, push_zero_padded, zero_padded};
use crate::trend::{generate_trend_section, trend_text};
use vstd::prelude::*;
use vstd::string::*;

verus! {

/// What `str::to_uppercase` returns for a text.
pub uninterp spec fn uppercase_of(text: Seq<char>) -> Seq<char>;

/// `str::to_uppercase` of the standard library. Assumed of it: the result is
/// a function of the text alone, named `uppercase_of`.
pub assume_specification[ str::to_uppercase ](text: &str) -> (upper: String)
    ensures
        upper@ == uppercase_of(text@),
;

/// The tokens that every report has: wind, visibility, clouds, temperature
/// and dew point, pressure, each after a space.
pub open spec fn readings_text(observation: ObservationRecord, units: Units) -> Seq<char> {
    " "@ + wind_token(
        observation.wind_direction_deg,
        observation.wind_speed_ms,
        observation.wind_gust_ms,
    ) + " "@ + visibility_token(observation.visibility_m, units, observation.weather_codes@) + " "@
        + clouds_token(observation.cloud_coverage_pct) + " "@ + temp_dew_token(
        observation.temperature_c,
        observation.dew_point_c,
        observation.humidity_pct,
    ) + " "@ + pressure_token(observation.pressure_hpa, units)
}

/// `text` after a space, or nothing where `text` is empty.
pub open spec fn spaced(text: Seq<char>) -> Seq<char> {
    if text.len() > 0 {
        " "@ + text
    } else {
        Seq::empty()
    }
}

/// A report from the wind on: the tokens that every report has, then the
/// phenomena line and the forecast section where there is one.
pub open spec fn body_text(observation: ObservationRecord, units: Units) -> Seq<char> {
    readings_text(observation, units) + spaced(phenomena_line(observation.weather_codes@))
        + spaced(trend_text(observation.forecast@, units))
}

/// The report line: station, time of the report, `AUTO`, then the readings.
pub open spec fn report_text(
    station: Seq<char>,
    now: ReportTime,
    observation: ObservationRecord,
    units: Units,
) -> Seq<char> {
    station + " "@ + now.text() + " AUTO"@ + body_text(observation, units)
}

/// Appends the tokens that every report has.
fn push_readings(report: &mut String, observation: &ObservationRecord, units: Units)
    ensures
        final(report)@ == old(report)@ + readings_text(*observation, units),
{
    let wind = format_wind(
        observation.wind_direction_deg,
        observation.wind_speed_ms,
        observation.wind_gust_ms,
    );
    let visibility = format_visibility(
        observation.visibility_m,
        units,
        observation.weather_codes.as_slice(),
    );
    let clouds = format_clouds(observation.cloud_coverage_pct);
    let temp_dew = format_temp_dew(
        observation.temperature_c,
        observation.dew_point_c,
        observation.humidity_pct,
    );
    let pressure = format_pressure(observation.pressure_hpa, units);
    report.append(" ");
    report.append(wind.as_str());
    report.append(" ");
    report.append(visibility.as_str());
    report.append(" ");
    report.append(clouds.as_str());
    report.append(" ");
    report.append(temp_dew.as_str());
    report.append(" ");
    report.append(pressure.as_str());
    assert(report@ =~= old(report)@ + readings_text(*observation, units));
}

/// Appends `text` after a space, or nothing where `text` is empty.
fn push_spaced(report: &mut String, text: &str)
    ensures
        final(report)@ == old(report)@ + spaced(text@),
{
    if !text.is_empty() {
        report.append(" ");
        report.append(text);
        assert(report@ =~= old(report)@ + spaced(text@));
    } else {
        assert(report@ =~= old(report)@ + spaced(text@));
    }
}

/// Appends the time of the report.
fn push_report_time(report: &mut String, now: ReportTime)
    ensures
        final(report)@ == old(report)@ + now.text(),
{
    push_zero_padded(report, now.day as i32, 2);
    push_zero_padded(report, now.hour as i32, 2);
    push_zero_padded(report, now.minute as i32, 2);
    report.append("Z");
    assert(report@ =~= old(report)@ + now.text());
}

/// Puts the report together for a station identifier that is written as it
/// shall appear.
pub fn assemble_report(
    station: &str,
    now: ReportTime,
    observation: &ObservationRecord,
    units: Units,
) -> (report: String)
    ensures
        report@ == report_text(station@, now, *observation, units),
{
    let weather = format_weather_conditions(observation.weather_codes.as_slice());
    let trend = generate_trend_section(observation.forecast.as_slice(), units);
    let mut report = String::from_str(station);
    report.append(" ");
    push_report_time(&mut report, now);
    report.append(" AUTO");
    let ghost head = report@;
    push_readings(&mut report, observation, units);
    push_spaced(&mut report, weather.as_str());
    push_spaced(&mut report, trend.as_str());
    proof {
        assert(report@ =~= head + body_text(*observation, units));
        assert(report@ =~= report_text(station@, now, *observation, units));
    }
    report
}

/// Puts the report together for the given time, the station identifier in
/// upper case.
pub fn generate_metar_at(
    station_id: &str,
    observation: &ObservationRecord,
    units: Units,
    now: ReportTime,
) -> (report: String)
    ensures
        report@ == report_text(uppercase_of(station_id@), now, *observation, units),
{
    let station = station_id.to_uppercase();
    assemble_report(station.as_str(), now, observation, units)
}

/// Puts the report together for the present time in UTC, the station
/// identifier in upper case. Whatever the time, the report begins with the
/// station and, after the seven characters of the time, goes on as the
/// observation and the units alone decide.
pub fn generate_metar(station_id: &str, observation: &ObservationRecord, units: Units) -> (report:
    String)
    ensures
        exists|now: ReportTime|
            now.well_formed() && report@ == #[trigger] report_text(
                uppercase_of(station_id@),
                now,
                *observation,
                units,
            ),
        report@.take(uppercase_of(station_id@).len() as int + 1) == uppercase_of(station_id@)
            + " "@,
        report@.skip(uppercase_of(station_id@).len() as int + 8) == " AUTO"@ + body_text(
            *observation,
            units,
        ),
{
    let now = utc_now();
    proof {
        lemma_reports_differ_in_time_only(
            uppercase_of(station_id@),
            *observation,
            units,
            now,
            now,
        );
        reveal_strlit(" ");
        assert(report_text(uppercase_of(station_id@), now, *observation, units).take(
            uppercase_of(station_id@).len() as int + 1,
        ) =~= uppercase_of(station_id@) + " "@);
    }
    generate_metar_at(station_id, observation, units, now)
}

/// Two reports on the same station, observation and units differ in the time
/// of the report at most: they begin with the same station and, after the
/// seven characters of the time, go on alike.
pub proof fn lemma_reports_differ_in_time_only(
    station: Seq<char>,
    observation: ObservationRecord,
    units: Units,
    first: ReportTime,
    second: ReportTime,
)
    requires
        first.well_formed(),
        second.well_formed(),
    ensures
        first.text().len() == 7,
        second.text().len() == 7,
        report_text(station, first, observation, units).len() == report_text(
            station,
            second,
            observation,
            units,
        ).len(),
        report_text(station, first, observation, units).take(station.len() as int + 1) == report_text(
            station,
            second,
            observation,
            units,
        ).take(station.len() as int + 1),
        report_text(station, first, observation, units).skip(station.len() as int + 8) == report_text(
            station,
            second,
            observation,
            units,
        ).skip(station.len() as int + 8),
        report_text(station, first, observation, units).skip(station.len() as int + 8) == " AUTO"@
            + body_text(observation, units),
{
    lemma_report_time_len(first);
    lemma_report_time_len(second);
    reveal_strlit(" ");
    let tail = " AUTO"@ + body_text(observation, units);
    let one = report_text(station, first, observation, units);
    let two = report_text(station, second, observation, units);
    assert(one =~= (station + " "@) + first.text() + tail);
    assert(two =~= (station + " "@) + second.text() + tail);
    assert(one.skip(station.len() as int + 8) =~= tail);
    assert(two.skip(station.len() as int + 8) =~= tail);
    assert(one.take(station.len() as int + 1) =~= station + " "@);
    assert(two.take(station.len() as int + 1) =~= station + " "@);
}

/// The time of a report is seven characters long.
pub proof fn lemma_report_time_len(now: ReportTime)
    requires
        now.well_formed(),
    ensures
        now.text().len() == 7,
{
    reveal_strlit("Z");
    lemma_two_digits(now.day as int);
    lemma_two_digits(now.hour as int);
    lemma_two_digits(now.minute as int);
}

/// A number below a hundred and not negative is two characters long when
/// padded to two.
proof fn lemma_two_digits(n: int)
    requires
        0 <= n <= 99,
    ensures
        zero_padded(n, 2).len() == 2,
{
    lemma_decimal_len(n as nat);
    lemma_decimal_len((n / 10) as nat);
}

} // verus!
