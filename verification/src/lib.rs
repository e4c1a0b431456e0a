//! Synthesises METAR-style aviation weather reports from general-purpose
//! weather observations.
//!
//! Quantities are exact decimals with three fractional digits, so every
//! rounding step is specified over the rationals and proved.

pub mod airports;
pub mod clock;
pub mod fields;
pub mod fixed;
pub mod fraction;
pub mod keys;
pub mod menu;
pub mod phenomena;
pub mod record;
pub mod report;
pub mod rounding;
pub mod text;
pub mod trend;
pub mod units;
