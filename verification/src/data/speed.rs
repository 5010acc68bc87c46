use crate::data::measurement::spaced;
use crate::data::measurement::with_unit;
use crate::data::measurement::Measurement;
use vstd::prelude::*;

verus! {

/// A speed.  The number is kept as the bit pattern of a single-precision
/// number, as it was measured.
#[derive(Clone, Copy, Debug, PartialEq, Eq, Structural)]
pub enum Speed {
    KilometersPerHour(u32),
}

impl Speed {
    /// The bit pattern of the number.
    pub open spec fn bits(self) -> u32 {
        match self {
            Speed::KilometersPerHour(bits) => bits,
        }
    }

    /// The bit pattern of the number.
    pub fn to_bits(self) -> (bits: u32)
        ensures
            bits == self.bits(),
    {
        match self {
            Speed::KilometersPerHour(bits) => bits,
        }
    }

    /// Writes the speed out: the number, given as it is written, a blank,
    /// and the unit.
    pub fn format(&self, number: &str) -> (text: String)
        ensures
            text@ == number@ + spaced(self.unit_text()),
    {
        with_unit(number, self.unit())
    }
}

impl Measurement for Speed {
    open spec fn unit_text(&self) -> Seq<char> {
        match self {
            Speed::KilometersPerHour(_) => "km/h"@,
        }
    }

    fn unit(&self) -> (unit: &'static str) {
        match self {
            Speed::KilometersPerHour(_) => "km/h",
        }
    }
}

} // verus!
