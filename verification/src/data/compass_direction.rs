use crate::data::binary32::decode;
use crate::data::binary32::denominator;
use crate::data::binary32::is_finite;
use crate::data::binary32::numerator;
use crate::data::binary32::power_of_two;
use crate::data::binary32::Finite;
use vstd::arithmetic::div_mod::lemma_basic_div;
use vstd::arithmetic::div_mod::lemma_fundamental_div_mod;
use vstd::arithmetic::div_mod::lemma_fundamental_div_mod_converse;
use vstd::arithmetic::div_mod::lemma_mod_multiples_vanish;
use vstd::arithmetic::div_mod::lemma_mul_mod_noop_general;
use vstd::arithmetic::div_mod::lemma_small_mod;
use vstd::arithmetic::power2::lemma2_to64;
use vstd::arithmetic::power2::lemma_pow2_pos;
use vstd::arithmetic::power2::lemma_pow2_strictly_increases;
use vstd::arithmetic::power2::lemma_pow2_unfold;
use vstd::arithmetic::power2::pow2;
use vstd::prelude::*;
use vstd::string::StringExecFns;

verus! {

/// One of the eight principal winds.
#[derive(Clone, Copy, Debug, PartialEq, Eq, Structural)]
pub enum CompassDirection {
    N,
    NE,
    E,
    SE,
    S,
    SW,
    W,
    NW,
}

#[derive(Clone, Debug)]
pub enum Error {
    /// The pattern, given back, stands for an infinity or for no number.
    InvalidDegrees(u32),
}

/// Index of the sector that holds the angle of `num / den` degrees.
///
/// The circle is cut into eight sectors of 45 degrees, counted clockwise
/// from 0, the one with north in its middle: sector `i` holds the angles
/// from `45 i - 22.5` degrees up to, but without, `45 i + 22.5` degrees, and
/// every angle that differs from one of these by full turns.  With the
/// angle doubled and taken times `den`, all bounds are integers.
pub open spec fn sector_of(num: int, den: int) -> int {
    ((2 * num + 45 * den) % (720 * den)) / (90 * den)
}

/// Every angle lies in one of the eight sectors.
pub proof fn lemma_sector_range(num: int, den: int)
    requires
        den > 0,
    ensures
        0 <= sector_of(num, den) < 8,
{
    let turn = 720 * den;
    let rest = (2 * num + 45 * den) % turn;
    assert(0 <= rest < turn) by {
        lemma_fundamental_div_mod(2 * num + 45 * den, turn);
        vstd::arithmetic::div_mod::lemma_mod_bound(2 * num + 45 * den, turn);
    }
    let sector = rest / (90 * den);
    lemma_fundamental_div_mod(rest, 90 * den);
    vstd::arithmetic::div_mod::lemma_mod_bound(rest, 90 * den);
    assert(0 <= sector < 8) by (nonlinear_arith)
        requires
            den > 0,
            0 <= rest < 720 * den,
            rest == (90 * den) * sector + rest % (90 * den),
            0 <= rest % (90 * den) < 90 * den,
    ;
}

/// An angle between the bounds of sector `index` lies in that sector:
/// every sector is closed at its lower bound and open at its upper one.
pub proof fn lemma_sector_interval(num: int, den: int, index: int)
    requires
        den > 0,
        0 <= index < 8,
        (90 * index - 45) * den <= 2 * num < (90 * index + 45) * den,
    ensures
        sector_of(num, den) == index,
{
    let doubled = 2 * num + 45 * den;
    assert(90 * den * index <= doubled < 90 * den * index + 90 * den) by (nonlinear_arith)
        requires
            doubled == 2 * num + 45 * den,
            (90 * index - 45) * den <= 2 * num < (90 * index + 45) * den,
    ;
    assert(0 <= doubled < 720 * den) by (nonlinear_arith)
        requires
            90 * den * index <= doubled < 90 * den * index + 90 * den,
            0 <= index < 8,
            den > 0,
    ;
    lemma_small_mod(doubled as nat, (720 * den) as nat);
    lemma_fundamental_div_mod_converse(doubled, 90 * den, index, doubled - 90 * den * index);
}

/// Full turns do not change the sector.
pub proof fn lemma_sector_periodic(num: int, den: int, turns: int)
    requires
        den > 0,
    ensures
        sector_of(num + 360 * turns * den, den) == sector_of(num, den),
{
    let doubled = 2 * num + 45 * den;
    assert(2 * (num + 360 * turns * den) + 45 * den == (720 * den) * turns + doubled)
        by (nonlinear_arith)
        requires
            doubled == 2 * num + 45 * den,
    ;
    lemma_mod_multiples_vanish(turns, doubled, 720 * den);
}

/// The sector belongs to the angle, not to the fraction that it is
/// written as.
pub proof fn lemma_sector_scaled(num: int, den: int, factor: int)
    requires
        den > 0,
        factor > 0,
    ensures
        sector_of(num * factor, den * factor) == sector_of(num, den),
{
    let doubled = 2 * num + 45 * den;
    let turn = 720 * den;
    let width = 90 * den;
    let turns = doubled / turn;
    let rest = doubled % turn;
    lemma_fundamental_div_mod(doubled, turn);
    vstd::arithmetic::div_mod::lemma_mod_bound(doubled, turn);
    let sector = rest / width;
    let offset = rest % width;
    lemma_fundamental_div_mod(rest, width);
    vstd::arithmetic::div_mod::lemma_mod_bound(rest, width);
    assert(2 * (num * factor) + 45 * (den * factor) == turns * (720 * (den * factor)) + rest
        * factor && 0 <= rest * factor < 720 * (den * factor)) by (nonlinear_arith)
        requires
            doubled == 2 * num + 45 * den,
            doubled == (720 * den) * turns + rest,
            0 <= rest < 720 * den,
            factor > 0,
    ;
    lemma_fundamental_div_mod_converse(
        2 * (num * factor) + 45 * (den * factor),
        720 * (den * factor),
        turns,
        rest * factor,
    );
    assert(rest * factor == sector * (90 * (den * factor)) + offset * factor && 0 <= offset
        * factor < 90 * (den * factor)) by (nonlinear_arith)
        requires
            rest == (90 * den) * sector + offset,
            0 <= offset < 90 * den,
            factor > 0,
    ;
    lemma_fundamental_div_mod_converse(
        rest * factor,
        90 * (den * factor),
        sector,
        offset * factor,
    );
}

/// The remainder of two to the power `exponent` modulo 360.
fn power_of_two_in_turn(exponent: u32) -> (residue: u32)
    ensures
        residue == pow2(exponent as nat) % 360,
{
    let mut residue: u32 = 1;
    let mut i: u32 = 0;
    proof {
        lemma2_to64();
    }
    while i < exponent
        invariant
            i <= exponent,
            residue == pow2(i as nat) % 360,
        decreases exponent - i,
    {
        proof {
            lemma_pow2_unfold((i + 1) as nat);
            lemma_mul_mod_noop_general(2, pow2(i as nat) as int, 360);
        }
        residue = (2 * residue) % 360;
        i = i + 1;
    }
    residue
}

/// The sector of an angle given in parts.
fn sector(angle: Finite) -> (index: u8)
    requires
        angle.wf(),
    ensures
        index == sector_of(angle.numerator(), angle.denominator()),
        index < 8,
{
    if angle.scale >= 0 {
        let residue = power_of_two_in_turn(angle.scale as u32);
        assert((angle.significand % 360) * residue < 360 * 360) by (nonlinear_arith)
            requires
                0 <= angle.significand % 360 < 360,
                0 <= residue < 360,
        ;
        let rest: u32 = ((angle.significand % 360) * residue) % 360;
        let doubled: u32 = 2 * rest;
        let shifted: u32 = if angle.negative {
            (765 - doubled) % 720
        } else {
            (doubled + 45) % 720
        };
        proof {
            let power = pow2(angle.scale as nat) as int;
            let absolute = angle.significand * power;
            lemma_mul_mod_noop_general(angle.significand as int, power, 360);
            assert(rest == absolute % 360);
            lemma_fundamental_div_mod(absolute, 360);
            let turns = absolute / 360;
            if angle.negative {
                lemma_mod_multiples_vanish(-turns - 1, 765 - doubled, 720);
                assert(2 * angle.numerator() + 45 == 720 * (-turns - 1) + (765 - doubled));
            } else {
                lemma_mod_multiples_vanish(turns, doubled + 45, 720);
                assert(2 * angle.numerator() + 45 == 720 * turns + (doubled + 45));
            }
            assert(shifted == (2 * angle.numerator() + 45) % 720);
        }
        (shifted / 90) as u8
    } else if angle.scale <= -25 {
        proof {
            let den = angle.denominator();
            let doubled = 2 * angle.numerator() + 45 * den;
            lemma2_to64();
            if angle.scale < -25 {
                lemma_pow2_strictly_increases(25, (-angle.scale) as nat);
            }
            assert(0 <= doubled < 90 * den);
            lemma_small_mod(doubled as nat, (720 * den) as nat);
            lemma_basic_div(doubled, 90 * den);
        }
        0
    } else {
        let den: u64 = power_of_two((-angle.scale) as u32);
        proof {
            lemma2_to64();
            lemma_pow2_pos((-angle.scale) as nat);
            if angle.scale > -24 {
                lemma_pow2_strictly_increases((-angle.scale) as nat, 24);
            }
        }
        let turn: u64 = 720 * den;
        let half: u64 = 45 * den;
        let doubled: u64 = 2 * (angle.significand as u64);
        let rest: u64 = doubled % turn;
        let shifted: u64 = if angle.negative {
            (half + turn - rest) % turn
        } else {
            (rest + half) % turn
        };
        let width: u64 = 90 * den;
        let index = shifted / width;
        proof {
            lemma_fundamental_div_mod(doubled as int, turn as int);
            let turns = doubled as int / turn as int;
            if angle.negative {
                lemma_mod_multiples_vanish(-turns - 1, half + turn - rest, turn as int);
                assert(2 * angle.numerator() + 45 * den == turn * (-turns - 1) + (half + turn
                    - rest)) by (nonlinear_arith)
                    requires
                        doubled == turn * turns + rest,
                        2 * angle.numerator() == -doubled,
                        half == 45 * den,
                ;
            } else {
                lemma_mod_multiples_vanish(turns, rest + half, turn as int);
                assert(2 * angle.numerator() + 45 * den == turn * turns + (rest + half))
                    by (nonlinear_arith)
                    requires
                        doubled == turn * turns + rest,
                        2 * angle.numerator() == doubled,
                        half == 45 * den,
                ;
            }
            assert(shifted == (2 * angle.numerator() + 45 * den) % (720 * den));
            lemma_sector_range(angle.numerator(), den as int);
        }
        index as u8
    }
}

impl CompassDirection {
    /// The direction in the middle of the sector with the given index.
    pub open spec fn of_sector(index: int) -> CompassDirection {
        if index == 0 {
            CompassDirection::N
        } else if index == 1 {
            CompassDirection::NE
        } else if index == 2 {
            CompassDirection::E
        } else if index == 3 {
            CompassDirection::SE
        } else if index == 4 {
            CompassDirection::S
        } else if index == 5 {
            CompassDirection::SW
        } else if index == 6 {
            CompassDirection::W
        } else {
            CompassDirection::NW
        }
    }

    /// What [`CompassDirection::from_degrees`] returns for an angle given by
    /// its bit pattern.
    pub open spec fn spec_from_degrees(degrees: u32) -> Result<CompassDirection, Error> {
        if is_finite(degrees) {
            Ok(Self::of_sector(sector_of(numerator(degrees), denominator(degrees))))
        } else {
            Err(Error::InvalidDegrees(degrees))
        }
    }

    /// The direction of an angle in degrees, clockwise from north, given as
    /// the bit pattern of a single-precision number.  Every finite angle has
    /// a direction, the negative ones and those beyond a full turn too; the
    /// infinities and the NaNs have none.
    pub fn from_degrees(degrees: u32) -> (result: Result<CompassDirection, Error>)
        ensures
            result == Self::spec_from_degrees(degrees),
    {
        let angle = match decode(degrees) {
            Some(angle) => angle,
            None => {
                return Err(Error::InvalidDegrees(degrees));
            },
        };
        let index = sector(angle);
        let direction = if index == 0 {
            CompassDirection::N
        } else if index == 1 {
            CompassDirection::NE
        } else if index == 2 {
            CompassDirection::E
        } else if index == 3 {
            CompassDirection::SE
        } else if index == 4 {
            CompassDirection::S
        } else if index == 5 {
            CompassDirection::SW
        } else if index == 6 {
            CompassDirection::W
        } else {
            CompassDirection::NW
        };
        Ok(direction)
    }

    /// The letters that the direction is written with.
    pub open spec fn abbreviation(self) -> Seq<char> {
        match self {
            CompassDirection::N => "N"@,
            CompassDirection::NE => "NE"@,
            CompassDirection::E => "E"@,
            CompassDirection::SE => "SE"@,
            CompassDirection::S => "S"@,
            CompassDirection::SW => "SW"@,
            CompassDirection::W => "W"@,
            CompassDirection::NW => "NW"@,
        }
    }

    /// The direction written out: one or two capital letters.
    pub fn to_string(&self) -> (text: String)
        ensures
            text@ == self.abbreviation(),
    {
        let letters = match self {
            CompassDirection::N => "N",
            CompassDirection::NE => "NE",
            CompassDirection::E => "E",
            CompassDirection::SE => "SE",
            CompassDirection::S => "S",
            CompassDirection::SW => "SW",
            CompassDirection::W => "W",
            CompassDirection::NW => "NW",
        };
        String::from_str(letters)
    }

    /// Two angles that differ by full turns have the same direction.
    pub proof fn lemma_periodic(degrees: u32, other: u32, turns: int)
        requires
            is_finite(degrees),
            is_finite(other),
            numerator(other) * denominator(degrees) == (numerator(degrees) + 360 * turns
                * denominator(degrees)) * denominator(other),
        ensures
            Self::spec_from_degrees(other) == Self::spec_from_degrees(degrees),
    {
        let num = numerator(degrees);
        let den = denominator(degrees);
        let other_num = numerator(other);
        let other_den = denominator(other);
        crate::data::binary32::lemma_denominator_positive(degrees);
        crate::data::binary32::lemma_denominator_positive(other);
        lemma_sector_scaled(other_num, other_den, den);
        lemma_sector_scaled(num + 360 * turns * den, den, other_den);
        assert(other_den * den == den * other_den) by (nonlinear_arith);
        lemma_sector_periodic(num, den, turns);
    }

    /// The angles from -22.5 degrees up to, but without, 22.5 degrees point
    /// north, and so on round the circle: the angles from `45 i - 22.5` up
    /// to, but without, `45 i + 22.5` degrees have the direction of sector
    /// `i`.
    pub proof fn lemma_sectors(degrees: u32, index: int)
        requires
            is_finite(degrees),
            0 <= index < 8,
            (90 * index - 45) * denominator(degrees) <= 2 * numerator(degrees) < (90 * index
                + 45) * denominator(degrees),
        ensures
            Self::spec_from_degrees(degrees) == Ok::<CompassDirection, Error>(
                Self::of_sector(index),
            ),
    {
        crate::data::binary32::lemma_denominator_positive(degrees);
        lemma_sector_interval(numerator(degrees), denominator(degrees), index);
    }
}

} // verus!
