use crate::data::measurement::spaced;
use crate::data::measurement::with_unit;
use crate::data::measurement::Measurement;
use vstd::prelude::*;

verus! {

/// A pressure.  The number is kept as the bit pattern of a single-precision
/// number, as it was measured.
#[derive(Clone, Copy, Debug, PartialEq, Eq, Structural)]
pub enum Pressure {
    HectoPascal(u32),
}

impl Pressure {
    /// The bit pattern of the number.
    pub open spec fn bits(self) -> u32 {
        match self {
            Pressure::HectoPascal(bits) => bits,
        }
    }

    /// The bit pattern of the number.
    pub fn to_bits(self) -> (bits: u32)
        ensures
            bits == self.bits(),
    {
        match self {
            Pressure::HectoPascal(bits) => bits,
        }
    }

    /// Writes the pressure out: the number, given as it is written, a
    /// blank, and the unit.
    pub fn format(&self, number: &str) -> (text: String)
        ensures
            text@ == number@ + spaced(self.unit_text()),
    {
        with_unit(number, self.unit())
    }
}

impl Measurement for Pressure {
    open spec fn unit_text(&self) -> Seq<char> {
        match self {
            Pressure::HectoPascal(_) => "hPa"@,
        }
    }

    fn unit(&self) -> (unit: &'static str) {
        match self {
            Pressure::HectoPascal(_) => "hPa",
        }
    }
}

} // verus!
