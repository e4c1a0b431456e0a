//! Exact decimal quantities.

use vstd::prelude::*;

verus! {

/// A signed decimal quantity with three fractional digits.
///
/// The quantity `12.5` is held as `12_500` thousandths.
#[derive(Clone, Copy, Debug, PartialEq, Eq, Structural)]
pub struct Fixed {
    pub thousandths: i32,
}

impl Fixed {
    /// The quantity as a number of thousandths.
    pub open spec fn scaled(self) -> int {
        self.thousandths as int
    }

    /// The quantity holding `thousandths / 1000`.
    pub fn from_thousandths(thousandths: i32) -> (quantity: Fixed)
        ensures
            quantity.scaled() == thousandths,
    {
        Fixed { thousandths }
    }

    /// The quantity holding the whole number `units`.
    pub fn from_whole(units: i16) -> (quantity: Fixed)
        ensures
            quantity.scaled() == units * 1000,
    {
        Fixed { thousandths: (units as i32) * 1000 }
    }
}

} // verus!
