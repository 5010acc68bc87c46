use crate::data::measurement::spaced;
use crate::data::measurement::Measurement;
use vstd::prelude::*;
use vstd::string::StrSliceExecFns;
use vstd::string::StringExecFns;

verus! {

/// A temperature.  The number is kept as the bit pattern of a
/// single-precision number, as it was measured.
#[derive(Clone, Copy, Debug, PartialEq, Eq, Structural)]
pub enum Temperature {
    Celsius(u32),
}

/// The unit as it follows the number: a unit that begins with the degree
/// sign stands close to the number, any other after a blank.
pub open spec fn padded(unit: Seq<char>) -> Seq<char> {
    if unit.len() > 0 && unit[0] == '\u{b0}' {
        unit
    } else {
        spaced(unit)
    }
}

impl Temperature {
    /// The bit pattern of the number.
    pub open spec fn bits(self) -> u32 {
        match self {
            Temperature::Celsius(bits) => bits,
        }
    }

    /// The bit pattern of the number.
    pub fn to_bits(self) -> (bits: u32)
        ensures
            bits == self.bits(),
    {
        match self {
            Temperature::Celsius(bits) => bits,
        }
    }

    /// Writes the temperature out: the number, given as it is written, and
    /// the unit, as in `18.5°C`.
    pub fn format(&self, number: &str) -> (text: String)
        ensures
            text@ == number@ + padded(self.unit_text()),
    {
        let unit = self.unit();
        let mut text = String::from_str(number);
        if unit.unicode_len() > 0 && unit.get_char(0) == '\u{b0}' {
            text.append(unit);
        } else {
            proof {
                reveal_strlit(" ");
            }
            text.append(" ");
            text.append(unit);
        }
        assert(text@ =~= number@ + padded(self.unit_text()));
        text
    }
}

impl Measurement for Temperature {
    open spec fn unit_text(&self) -> Seq<char> {
        match self {
            Temperature::Celsius(_) => "\u{b0}C"@,
        }
    }

    fn unit(&self) -> (unit: &'static str) {
        match self {
            Temperature::Celsius(_) => "\u{b0}C",
        }
    }
}

} // verus!
