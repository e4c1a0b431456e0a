//! The observation handed to the encoder.

use crate::fixed::Fixed;
use crate::text::same_text;
use vstd::prelude::*;

verus! {

/// The unit system of a report.
#[derive(Clone, Copy, Debug, PartialEq, Eq, Structural)]
pub enum Units {
    /// Metres and hectopascals.
    Metric,
    /// Statute miles and inches of mercury.
    Imperial,
}

impl Units {
    /// The unit system that a configuration names: imperial where it says
    /// `imperial`, metric for every other word.
    pub open spec fn named(name: Seq<char>) -> Units {
        if name == "imperial"@ {
            Units::Imperial
        } else {
            Units::Metric
        }
    }

    /// The word for the unit system in a configuration.
    pub open spec fn word(self) -> Seq<char> {
        match self {
            Units::Metric => "metric"@,
            Units::Imperial => "imperial"@,
        }
    }

    /// Reads the unit system that a configuration names.
    pub fn from_name(name: &str) -> (units: Units)
        ensures
            units == Units::named(name@),
    {
        if same_text(name, "imperial") {
            Units::Imperial
        } else {
            Units::Metric
        }
    }

    /// The word for the unit system in a configuration.
    pub fn name(self) -> (name: &'static str)
        ensures
            name@ == self.word(),
    {
        match self {
            Units::Metric => "metric",
            Units::Imperial => "imperial",
        }
    }
}

/// Reading the word of a unit system gives the unit system back.
pub proof fn lemma_units_word_is_read_back(units: Units)
    ensures
        Units::named(units.word()) == units,
{
    reveal_strlit("metric");
    reveal_strlit("imperial");
    assert("metric"@.len() != "imperial"@.len());
}

/// One hour of an hourly forecast. Any reading may be missing.
#[derive(Clone, Debug)]
pub struct ForecastEntry {
    /// Seconds since 1970-01-01 00:00:00 UTC.
    pub timestamp_unix: i64,
    pub temperature_c: Option<Fixed>,
    pub dew_point_c: Option<Fixed>,
    /// Read only where `dew_point_c` is missing.
    pub humidity_pct: Option<Fixed>,
    pub pressure_hpa: Option<Fixed>,
    pub wind_speed_ms: Option<Fixed>,
    pub wind_direction_deg: Option<i32>,
    pub wind_gust_ms: Option<Fixed>,
    pub visibility_m: Option<Fixed>,
    pub cloud_coverage_pct: Option<Fixed>,
    /// Weather-condition codes in the order received.
    pub weather_codes: Vec<i32>,
}

/// A weather observation for one place and moment. Any reading may be missing.
#[derive(Clone, Debug)]
pub struct ObservationRecord {
    pub temperature_c: Option<Fixed>,
    pub dew_point_c: Option<Fixed>,
    /// Read only where `dew_point_c` is missing.
    pub humidity_pct: Option<Fixed>,
    pub pressure_hpa: Option<Fixed>,
    pub wind_speed_ms: Option<Fixed>,
    pub wind_direction_deg: Option<i32>,
    pub wind_gust_ms: Option<Fixed>,
    pub visibility_m: Option<Fixed>,
    pub cloud_coverage_pct: Option<Fixed>,
    /// Weather-condition codes in the order received.
    pub weather_codes: Vec<i32>,
    /// The hours ahead, in chronological order; may be empty.
    pub forecast: Vec<ForecastEntry>,
}

} // verus!
