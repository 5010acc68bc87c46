use crate::data::binary32::decode;
use crate::data::binary32::denominator;
use crate::data::binary32::from_hundredths;
use crate::data::binary32::is_finite;
use crate::data::binary32::is_nearest;
use crate::data::binary32::numerator;
use crate::data::binary32::parts;
use crate::data::binary32::power_of_two;
use crate::data::binary32::unit;
use crate::data::binary32::MIN_SCALE;
use crate::data::decimal::hundredths_text;
use crate::data::decimal::push_hundredths;
use vstd::arithmetic::div_mod::lemma_basic_div;
use vstd::arithmetic::div_mod::lemma_fundamental_div_mod_converse;
use vstd::arithmetic::power2::lemma2_to64;
use vstd::arithmetic::power2::lemma2_to64_rest;
use vstd::arithmetic::power2::lemma_pow2_pos;
use vstd::arithmetic::power2::lemma_pow2_strictly_increases;
use vstd::arithmetic::power2::pow2;
use vstd::prelude::*;
use vstd::string::StringExecFns;

verus! {

/// An angle along one axis of the globe, kept in hundredths of a degree.
///
/// `LONGITUDE` chooses the axis.  A latitude lies between 90 degrees south
/// and 90 degrees north, both ends included.  A longitude lies between 180
/// degrees west, included, and 180 degrees east, which is left out: it is
/// the meridian of 180 degrees west again.
#[derive(Clone, Copy, Debug, PartialEq, Eq)]
pub struct Coordinate<const LONGITUDE: bool> {
    value_times_100: i32,
}

pub type Latitude = Coordinate<false>;

pub type Longitude = Coordinate<true>;

#[derive(Debug)]
pub enum Error {
    /// The number lies outside the range.  `min` and `max` are the bounds
    /// in hundredths of a degree, `actual` is the pattern that was given.
    OutOfRange { min: i32, max: i32, actual: u32 },
    /// The pattern stands for an infinity or for no number.
    InvalidFloat,
}

/// A place on the globe.
#[derive(Clone, Copy, Debug, PartialEq, Eq)]
pub struct Coordinates {
    pub latitude: Latitude,
    pub longitude: Longitude,
}

impl<const LONGITUDE: bool> View for Coordinate<LONGITUDE> {
    type V = int;

    /// The angle in hundredths of a degree.
    closed spec fn view(&self) -> int {
        self.value_times_100 as int
    }
}

impl<const LONGITUDE: bool> Coordinate<LONGITUDE> {
    /// The lower bound in hundredths of a degree.
    pub open spec fn min() -> int {
        if LONGITUDE {
            -18000
        } else {
            -9000
        }
    }

    /// The upper bound in hundredths of a degree.
    pub open spec fn max() -> int {
        if LONGITUDE {
            18000
        } else {
            9000
        }
    }

    /// Whether the upper bound itself is out of range.
    pub open spec fn excludes_max() -> bool {
        LONGITUDE
    }

    /// The letter behind an angle below zero.
    pub open spec fn negative_suffix() -> char {
        if LONGITUDE {
            'W'
        } else {
            'S'
        }
    }

    /// The letter behind an angle that is not below zero.
    pub open spec fn positive_suffix() -> char {
        if LONGITUDE {
            'E'
        } else {
            'N'
        }
    }

    /// The stored hundredths lie between the bounds, the bounds included.
    #[verifier::type_invariant]
    pub open spec fn wf(self) -> bool {
        Self::min() <= self@ <= Self::max()
    }

    /// Whether the number `num / den` lies in the range.
    pub open spec fn in_range(num: int, den: int) -> bool {
        &&& Self::min() * den <= 100 * num
        &&& if Self::excludes_max() {
            100 * num < Self::max() * den
        } else {
            100 * num <= Self::max() * den
        }
    }

    /// The whole number nearest to `100 * num / den`; of two equally near,
    /// the one farther from zero.
    pub open spec fn rounded_hundredths(num: int, den: int) -> int {
        if num >= 0 {
            (200 * num + den) / (2 * den)
        } else {
            -((200 * (-num) + den) / (2 * den))
        }
    }

    /// What [`Coordinate::try_from`] returns for a pattern: the error, or the
    /// hundredths of the coordinate.
    pub open spec fn spec_try_from(value: u32) -> Result<int, Error> {
        if !is_finite(value) {
            Err(Error::InvalidFloat)
        } else if !Self::in_range(numerator(value), denominator(value)) {
            Err(Error::OutOfRange { min: Self::min() as i32, max: Self::max() as i32, actual: value })
        } else {
            Ok(Self::rounded_hundredths(numerator(value), denominator(value)))
        }
    }

    /// The coordinate of an angle in degrees, given as the bit pattern of a
    /// single-precision number.  A number in the range is rounded to
    /// hundredths.
    pub fn try_from(value: u32) -> (result: Result<Self, Error>)
        ensures
            match result {
                Ok(coordinate) => coordinate.wf() && Self::spec_try_from(value) == Ok::<
                    int,
                    Error,
                >(coordinate@),
                Err(error) => Self::spec_try_from(value) == Err::<int, Error>(error),
            },
    {
        let number = match decode(value) {
            Some(number) => number,
            None => {
                return Err(Error::InvalidFloat);
            },
        };
        let min: i32 = if LONGITUDE {
            -18000
        } else {
            -9000
        };
        let max: i32 = if LONGITUDE {
            18000
        } else {
            9000
        };
        proof {
            lemma2_to64();
            lemma2_to64_rest();
            crate::data::binary32::lemma_denominator_positive(value);
        }
        let ghost num = numerator(value);
        let ghost den = denominator(value);
        if number.significand == 0 {
            proof {
                assert(num == 0) by (nonlinear_arith)
                    requires
                        num == 0 * pow2(number.scale as nat) || num == -(0 * pow2(
                            number.scale as nat,
                        )) || num == 0,
                ;
                assert(Self::min() * den <= 0 < Self::max() * den) by (nonlinear_arith)
                    requires
                        den > 0,
                        Self::min() < 0 < Self::max(),
                ;
                lemma_basic_div(den, 2 * den);
            }
            return Ok(Coordinate { value_times_100: 0 });
        }
        if number.scale >= 0 {
            proof {
                lemma_pow2_pos(number.scale as nat);
                assert(number.significand * pow2(number.scale as nat) >= number.significand)
                    by (nonlinear_arith)
                    requires
                        pow2(number.scale as nat) >= 1,
                        number.significand >= 0,
                ;
            }
            return Err(Error::OutOfRange { min, max, actual: value });
        }
        let shift = (-number.scale) as u32;
        if shift > 40 {
            proof {
                lemma_pow2_strictly_increases(40, shift as nat);
                assert(Self::min() * den <= 100 * num < Self::max() * den) by (nonlinear_arith)
                    requires
                        den > 0x100_0000_0000,
                        -0x100_0000 < num < 0x100_0000,
                        Self::min() <= -9000,
                        Self::max() >= 9000,
                ;
                if num >= 0 {
                    lemma_basic_div(200 * num + den, 2 * den);
                } else {
                    lemma_basic_div(200 * (-num) + den, 2 * den);
                }
            }
            return Ok(Coordinate { value_times_100: 0 });
        }
        let divisor: u64 = power_of_two(shift);
        proof {
            if shift < 40 {
                lemma_pow2_strictly_increases(shift as nat, 40);
            }
            lemma_pow2_pos(shift as nat);
        }
        let scaled: u64 = 100 * (number.significand as u64);
        let limit: u64 = if number.negative {
            (-min) as u64
        } else {
            max as u64
        };
        assert(limit * divisor <= 18000 * 0x100_0000_0000) by (nonlinear_arith)
            requires
                0 <= limit <= 18000,
                0 <= divisor <= 0x100_0000_0000,
        ;
        let bound: u64 = limit * divisor;
        let inside = if LONGITUDE && !number.negative {
            scaled < bound
        } else {
            scaled <= bound
        };
        proof {
            if number.negative {
                assert(100 * num < Self::max() * den) by (nonlinear_arith)
                    requires
                        num < 0,
                        den > 0,
                        Self::max() > 0,
                ;
                assert((Self::min() * den <= 100 * num) == (scaled <= limit * divisor))
                    by (nonlinear_arith)
                    requires
                        scaled == 100 * (-num),
                        limit == -Self::min(),
                        divisor == den,
                ;
            } else {
                assert(Self::min() * den <= 100 * num) by (nonlinear_arith)
                    requires
                        num > 0,
                        den > 0,
                        Self::min() < 0,
                ;
                assert(Self::max() * den == limit * divisor) by (nonlinear_arith)
                    requires
                        limit == Self::max(),
                        divisor == den,
                ;
            }
            assert(inside == Self::in_range(num, den));
        }
        if !inside {
            return Err(Error::OutOfRange { min, max, actual: value });
        }
        let rounded: u64 = (2 * scaled + divisor) / (2 * divisor);
        proof {
            let rest = (2 * scaled + divisor) % (2 * divisor);
            vstd::arithmetic::div_mod::lemma_fundamental_div_mod(
                (2 * scaled + divisor) as int,
                (2 * divisor) as int,
            );
            vstd::arithmetic::div_mod::lemma_mod_bound(
                (2 * scaled + divisor) as int,
                (2 * divisor) as int,
            );
            assert(rounded <= limit) by (nonlinear_arith)
                requires
                    2 * scaled + divisor == (2 * divisor) * rounded + rest,
                    0 <= rest,
                    scaled <= limit * divisor,
                    divisor > 0,
            ;
        }
        let stored: i32 = if number.negative {
            -(rounded as i32)
        } else {
            rounded as i32
        };
        Ok(Coordinate { value_times_100: stored })
    }

    /// The angle in hundredths of a degree.
    pub fn hundredths(self) -> (value: i32)
        ensures
            value == self@,
            Self::min() <= value <= Self::max(),
    {
        proof {
            use_type_invariant(&self);
        }
        self.value_times_100
    }

    /// The angle in degrees as a single-precision number: the one nearest
    /// to the stored hundredths divided by 100.
    pub fn to_bits(self) -> (bits: u32)
        ensures
            is_finite(bits),
            is_nearest(bits, self@, 100),
    {
        proof {
            use_type_invariant(&self);
        }
        from_hundredths(self.value_times_100)
    }

    /// A coordinate that is turned into a single-precision number is read
    /// back from that number unchanged.
    ///
    /// The one coordinate left out is 180 degrees east, which a longitude
    /// reaches by rounding: the number nearest to it is 180 itself, which
    /// is out of range.
    pub proof fn lemma_round_trip(self, bits: u32)
        requires
            self.wf(),
            is_finite(bits),
            is_nearest(bits, self@, 100),
            !(Self::excludes_max() && self@ == Self::max()),
        ensures
            Self::spec_try_from(bits) == Ok::<int, Error>(self@),
    {
        let absolute = if self@ < 0 {
            -self@
        } else {
            self@
        };
        let number = parts(bits);
        let significand = number.significand as int;
        let num = numerator(bits);
        let den = denominator(bits);
        let reached = if num < 0 {
            -num
        } else {
            num
        };
        let err = absolute * den - reached * 100;
        let limit = if self@ < 0 {
            -Self::min()
        } else {
            Self::max()
        };
        lemma2_to64();
        crate::data::binary32::lemma_denominator_positive(bits);
        assert(2 * (-err) <= unit(bits) * 100);
        if number.scale >= 0 {
            let power = pow2(number.scale as nat) as int;
            lemma_pow2_pos(number.scale as nat);
            assert(false) by (nonlinear_arith)
                requires
                    significand >= 0x80_0000,
                    power >= 1,
                    0 <= absolute <= 18000,
                    err == absolute * 1 - (significand * power) * 100,
                    2 * (-err) <= power * 100,
            ;
        }
        assert(reached == significand);
        assert(-50 <= err <= 50);
        assert(den > 100) by {
            if number.scale == MIN_SCALE {
                lemma_pow2_strictly_increases(7, 149);
            } else {
                assert(den > 100) by (nonlinear_arith)
                    requires
                        significand >= 0x80_0000,
                        0 <= absolute <= 18000,
                        err == absolute * den - significand * 100,
                        err >= -50,
                ;
            }
        }
        assert(100 * significand <= limit * den && (absolute < limit ==> 100 * significand
            < limit * den)) by {
            if absolute < limit {
                assert(100 * significand < limit * den) by (nonlinear_arith)
                    requires
                        err == absolute * den - significand * 100,
                        err >= -50,
                        absolute + 1 <= limit,
                        den > 100,
                ;
            } else {
                let whole = limit / 100;
                assert(limit == 100 * whole);
                assert(err == 100 * (whole * den - significand)) by (nonlinear_arith)
                    requires
                        err == absolute * den - significand * 100,
                        absolute == 100 * whole,
                ;
            }
        }
        if self@ < 0 {
            assert(significand > 0) by (nonlinear_arith)
                requires
                    err == absolute * den - significand * 100,
                    err <= 50,
                    absolute >= 1,
                    den > 100,
                    significand >= 0,
            ;
            assert(100 * num < Self::max() * den) by (nonlinear_arith)
                requires
                    num < 0,
                    den > 0,
                    Self::max() > 0,
            ;
            assert(Self::min() * den <= 100 * num) by (nonlinear_arith)
                requires
                    num == -significand,
                    limit == -Self::min(),
                    100 * significand <= limit * den,
            ;
        } else {
            assert(Self::min() * den <= 100 * num) by (nonlinear_arith)
                requires
                    num >= 0,
                    den > 0,
                    Self::min() < 0,
            ;
        }
        assert(Self::in_range(num, den));
        assert(200 * significand + den == absolute * (2 * den) + (den - 2 * err))
            by (nonlinear_arith)
            requires
                err == absolute * den - significand * 100,
        ;
        lemma_fundamental_div_mod_converse(
            200 * significand + den,
            2 * den,
            absolute,
            den - 2 * err,
        );
    }

    /// The coordinate as it is written: the angle without its sign, a
    /// degree sign, and the letter of its side.
    pub open spec fn text(self) -> Seq<char> {
        let absolute = if self@ < 0 {
            -self@
        } else {
            self@
        };
        let suffix = if self@ < 0 {
            Self::negative_suffix()
        } else {
            Self::positive_suffix()
        };
        hundredths_text(absolute as nat) + seq!['\u{b0}', suffix]
    }

    /// Writes the coordinate out, as in `53.33°N` or `9.5°W`.
    pub fn to_string(&self) -> (text: String)
        ensures
            text@ == self.text(),
    {
        proof {
            use_type_invariant(self);
            reveal_strlit("\u{b0}W");
            reveal_strlit("\u{b0}E");
            reveal_strlit("\u{b0}S");
            reveal_strlit("\u{b0}N");
        }
        let value = self.value_times_100;
        let mut text = String::new();
        if value < 0 {
            push_hundredths(&mut text, (-value) as u32);
            if LONGITUDE {
                text.append("\u{b0}W");
            } else {
                text.append("\u{b0}S");
            }
        } else {
            push_hundredths(&mut text, value as u32);
            if LONGITUDE {
                text.append("\u{b0}E");
            } else {
                text.append("\u{b0}N");
            }
        }
        assert(text@ =~= self.text());
        text
    }
}

} // verus!
