use crate::data::binary32::from_hundredths;
use crate::data::binary32::is_finite;
use crate::data::binary32::is_nearest;
use crate::data::decimal::digits;
use crate::data::decimal::push_digits;
use crate::data::measurement::Measurement;
use vstd::prelude::*;
use vstd::string::StringExecFns;

verus! {

/// Largest number of hundredths that is a percentage.
pub const MAX_VALUE: u8 = 100;

/// A share of a whole in hundredths, from none to all of it.
#[derive(Clone, Copy, Debug, PartialEq, Eq, Structural)]
pub struct Percentage(u8);

#[derive(Clone, Debug)]
pub enum Error {
    /// The value, given back, lies above [`MAX_VALUE`].
    InvalidValue(u8),
}

impl View for Percentage {
    type V = u8;

    /// The number of hundredths.
    closed spec fn view(&self) -> u8 {
        self.0
    }
}

impl Percentage {
    /// A percentage lies in `0..=MAX_VALUE`.
    #[verifier::type_invariant]
    pub open spec fn wf(self) -> bool {
        self@ <= MAX_VALUE
    }

    /// What [`Percentage::try_from`] returns for `value`.
    pub open spec fn spec_try_from(value: u8) -> Result<u8, Error> {
        if value <= MAX_VALUE {
            Ok(value)
        } else {
            Err(Error::InvalidValue(value))
        }
    }

    /// Accepts exactly the values `0..=MAX_VALUE`; a larger one comes back
    /// inside the error.
    pub fn try_from(value: u8) -> (result: Result<Percentage, Error>)
        ensures
            match result {
                Ok(percentage) => percentage.wf() && Self::spec_try_from(value) == Ok::<
                    u8,
                    Error,
                >(percentage@),
                Err(error) => Self::spec_try_from(value) == Err::<u8, Error>(error),
            },
    {
        if value <= MAX_VALUE {
            Ok(Percentage(value))
        } else {
            Err(Error::InvalidValue(value))
        }
    }

    /// The number of hundredths.
    pub fn value(self) -> (value: u8)
        ensures
            value == self@,
            value <= MAX_VALUE,
    {
        proof {
            use_type_invariant(&self);
        }
        self.0
    }

    /// The share as a single-precision number between 0 and 1: the one
    /// nearest to the hundredths divided by 100.
    pub fn to_bits(self) -> (bits: u32)
        ensures
            is_finite(bits),
            is_nearest(bits, self@ as int, 100),
    {
        proof {
            use_type_invariant(&self);
        }
        from_hundredths(self.0 as i32)
    }

    /// The percentage as it is written: the number and the percent sign.
    pub open spec fn text(self) -> Seq<char> {
        digits(self@ as nat) + self.unit_text()
    }

    /// Writes the percentage out, as in `65%`.
    pub fn to_string(&self) -> (text: String)
        ensures
            text@ == self.text(),
    {
        let mut text = String::new();
        push_digits(&mut text, self.0 as u32);
        text.append(self.unit());
        text
    }
}

impl Measurement for Percentage {
    open spec fn unit_text(&self) -> Seq<char> {
        "%"@
    }

    fn unit(&self) -> (unit: &'static str) {
        "%"
    }
}

} // verus!
