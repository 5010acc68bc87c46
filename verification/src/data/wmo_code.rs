use vstd::prelude::*;
use vstd::std_specs::convert::FromSpecImpl;

verus! {

/// Largest value that identifies a weather condition class.
pub const MAX_VALUE: u8 = 99;

/// Code of the WMO 4677 table of present weather: one of the hundred values
/// `0..=99`, each of which names a class of weather conditions.
#[derive(Clone, Copy, Debug, PartialEq, Eq, Hash, Structural)]
pub struct WmoCode(u8);

#[derive(Clone, Debug)]
pub enum Error {
    /// The value lies above [`MAX_VALUE`].
    InvalidValue(u8),
}

impl View for WmoCode {
    type V = u8;

    closed spec fn view(&self) -> u8 {
        self.0
    }
}

impl WmoCode {
    /// Every code lies in `0..=MAX_VALUE`.
    #[verifier::type_invariant]
    pub open spec fn wf(self) -> bool {
        self@ <= MAX_VALUE
    }

    /// What [`WmoCode::try_from`] returns for `value`.
    pub open spec fn spec_try_from(value: u8) -> Result<u8, Error> {
        if value > MAX_VALUE {
            Err(Error::InvalidValue(value))
        } else {
            Ok(value)
        }
    }

    /// Accepts exactly the values `0..=MAX_VALUE`; a larger one comes back
    /// inside the error.
    pub fn try_from(value: u8) -> (result: Result<WmoCode, Error>)
        ensures
            match result {
                Ok(code) => code.wf() && Self::spec_try_from(value) == Ok::<u8, Error>(code@),
                Err(error) => Self::spec_try_from(value) == Err::<u8, Error>(error),
            },
    {
        if value > MAX_VALUE {
            Err(Error::InvalidValue(value))
        } else {
            Ok(WmoCode(value))
        }
    }

    /// The code with the given value, which must be one.
    pub(crate) fn from_valid(value: u8) -> (code: WmoCode)
        requires
            value <= MAX_VALUE,
        ensures
            code@ == value,
    {
        WmoCode(value)
    }

    /// The numeric value of the code.
    pub fn value(self) -> (value: u8)
        ensures
            value == self@,
            value <= MAX_VALUE,
    {
        proof {
            use_type_invariant(&self);
        }
        self.0
    }
}

impl From<WmoCode> for u8 {
    fn from(code: WmoCode) -> (value: u8) {
        code.0
    }
}

impl FromSpecImpl<WmoCode> for u8 {
    open spec fn obeys_from_spec() -> bool {
        true
    }

    open spec fn from_spec(code: WmoCode) -> u8 {
        code@
    }
}

} // verus!
