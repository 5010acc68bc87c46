//! Exact reading of IEEE 754 single-precision numbers from their bit
//! patterns.
//!
//! A finite pattern stands for the rational number
//! `numerator(bits) / denominator(bits)`; everything that the crate decides
//! about such a number it decides on that fraction, in integers.

use vstd::arithmetic::power2::lemma2_to64;
use vstd::arithmetic::power2::lemma2_to64_rest;
use vstd::arithmetic::power2::lemma_pow2_adds;
use vstd::arithmetic::power2::lemma_pow2_pos;
use vstd::arithmetic::power2::lemma_pow2_strictly_increases;
use vstd::arithmetic::power2::lemma_pow2_unfold;
use vstd::arithmetic::power2::pow2;
use vstd::prelude::*;

verus! {

/// The pattern of negative zero: the sign bit alone.
pub const SIGN_BIT: u32 = 0x8000_0000;

/// The pattern of positive infinity; the magnitudes above it are no numbers.
pub const INFINITY: u32 = 0x7f80_0000;

/// Two to the power 23: the weight of the exponent field, and the bit that
/// a normal number's significand has on top of its fraction field.
pub const HIDDEN_BIT: u32 = 0x0080_0000;

/// Smallest power of two that the significand of a number is scaled by.
pub const MIN_SCALE: i32 = -149;

/// Largest power of two that the significand of a number is scaled by.
pub const MAX_SCALE: i32 = 104;

/// The pattern without its sign bit.
pub open spec fn magnitude(bits: u32) -> int {
    if bits >= SIGN_BIT {
        bits - SIGN_BIT
    } else {
        bits as int
    }
}

/// Whether the sign bit is set.
pub open spec fn is_negative(bits: u32) -> bool {
    bits >= SIGN_BIT
}

/// Whether the pattern stands for a number: neither an infinity nor a NaN.
pub open spec fn is_finite(bits: u32) -> bool {
    magnitude(bits) < INFINITY
}

/// A finite number in parts: `significand * 2^scale`, negated where
/// `negative` is set.
#[derive(Clone, Copy, Debug)]
pub struct Finite {
    pub negative: bool,
    pub significand: u32,
    pub scale: i32,
}

impl Finite {
    /// The parts are those of some pattern.
    pub open spec fn wf(self) -> bool {
        &&& self.significand < 2 * HIDDEN_BIT
        &&& MIN_SCALE <= self.scale <= MAX_SCALE
    }

    /// The number is `numerator() / denominator()`.
    pub open spec fn numerator(self) -> int {
        let absolute = if self.scale >= 0 {
            self.significand * pow2(self.scale as nat)
        } else {
            self.significand as int
        };
        if self.negative {
            -absolute
        } else {
            absolute
        }
    }

    /// A power of two, and 1 where the number is an integer.
    pub open spec fn denominator(self) -> int {
        if self.scale >= 0 {
            1
        } else {
            pow2((-self.scale) as nat) as int
        }
    }
}

/// The parts of a finite pattern.
pub open spec fn parts(bits: u32) -> Finite {
    let exponent = magnitude(bits) / (HIDDEN_BIT as int);
    let fraction = magnitude(bits) % (HIDDEN_BIT as int);
    if exponent == 0 {
        Finite { negative: is_negative(bits), significand: fraction as u32, scale: MIN_SCALE }
    } else {
        Finite {
            negative: is_negative(bits),
            significand: (HIDDEN_BIT + fraction) as u32,
            scale: (exponent - 150) as i32,
        }
    }
}

/// Numerator of the number that a finite pattern stands for.
pub open spec fn numerator(bits: u32) -> int {
    parts(bits).numerator()
}

/// Denominator of the number that a finite pattern stands for: positive.
pub open spec fn denominator(bits: u32) -> int {
    parts(bits).denominator()
}

/// The denominator of a number is positive.
pub proof fn lemma_denominator_positive(bits: u32)
    ensures
        denominator(bits) > 0,
{
    let scale = parts(bits).scale;
    if scale < 0 {
        lemma_pow2_pos((-scale) as nat);
    }
}

/// Takes a pattern apart; `None` for the infinities and the NaNs.
pub fn decode(bits: u32) -> (result: Option<Finite>)
    ensures
        result == if is_finite(bits) {
            Some(parts(bits))
        } else {
            None
        },
        result matches Some(finite) ==> finite.wf(),
{
    let negative = bits >= SIGN_BIT;
    let magnitude = if negative {
        bits - SIGN_BIT
    } else {
        bits
    };
    if magnitude >= INFINITY {
        return None;
    }
    let exponent = magnitude / HIDDEN_BIT;
    let fraction = magnitude % HIDDEN_BIT;
    if exponent == 0 {
        Some(Finite { negative, significand: fraction, scale: MIN_SCALE })
    } else {
        Some(Finite { negative, significand: HIDDEN_BIT + fraction, scale: exponent as i32 - 150 })
    }
}

/// Two to the power `exponent`.
pub fn power_of_two(exponent: u32) -> (power: u64)
    requires
        exponent < 64,
    ensures
        power == pow2(exponent as nat),
{
    let mut power: u64 = 1;
    let mut i: u32 = 0;
    proof {
        lemma2_to64();
        lemma2_to64_rest();
    }
    while i < exponent
        invariant
            i <= exponent < 64,
            power == pow2(i as nat),
            pow2(63) == 0x8000_0000_0000_0000,
        decreases exponent - i,
    {
        proof {
            lemma_pow2_unfold((i + 1) as nat);
            if i + 1 < 63 {
                lemma_pow2_strictly_increases((i + 1) as nat, 63);
            }
        }
        power = 2 * power;
        i = i + 1;
    }
    power
}

/// The distance between a finite number and the next one farther from
/// zero, times the number's denominator.
pub open spec fn unit(bits: u32) -> int {
    if parts(bits).scale >= 0 {
        pow2(parts(bits).scale as nat) as int
    } else {
        1
    }
}

/// Whether the next number nearer to zero is only half as far away as the
/// next one farther from zero: so it is at the smallest significand of
/// every exponent but the lowest two, which share their spacing.
pub open spec fn is_power_of_two(bits: u32) -> bool {
    parts(bits).significand == HIDDEN_BIT && parts(bits).scale > MIN_SCALE
}

/// Whether the finite pattern `bits` stands for the single-precision number
/// nearest to `num / den`, where `den` is positive: the two have the same
/// sign, zero is positive, and no number lies nearer.  Of two numbers
/// equally near, the one with the even significand counts as nearest.
///
/// With `err` for `|num / den|` less the absolute value of the number, both
/// taken times `den` and the number's denominator, no number lies nearer
/// where twice `err` is at most one unit, downwards as well as upwards,
/// and at a power of two, where the numbers below lie closer, four times
/// `-err` is at most one unit.
pub open spec fn is_nearest(bits: u32, num: int, den: int) -> bool {
    let absolute = if num < 0 {
        -num
    } else {
        num
    };
    let reached = if numerator(bits) < 0 {
        -numerator(bits)
    } else {
        numerator(bits)
    };
    let err = absolute * denominator(bits) - reached * den;
    let even = parts(bits).significand % 2 == 0;
    &&& is_negative(bits) == (num < 0)
    &&& 2 * err <= unit(bits) * den
    &&& 2 * err == unit(bits) * den ==> even
    &&& if is_power_of_two(bits) {
        4 * (-err) <= unit(bits) * den
    } else {
        &&& 2 * (-err) <= unit(bits) * den
        &&& 2 * (-err) == unit(bits) * den ==> even
    }
}

/// The absolute value of a number in steps of `2^-149`, the smallest
/// distance between two numbers: every number is a whole number of such
/// steps.
pub open spec fn steps(bits: u32) -> int {
    parts(bits).significand * pow2((parts(bits).scale - MIN_SCALE) as nat)
}

/// The number in steps, with its sign.
pub open spec fn position(bits: u32) -> int {
    if is_negative(bits) {
        -steps(bits)
    } else {
        steps(bits)
    }
}

/// The distance between the number of `bits` and `num / den`, in steps and
/// times `den`.
pub open spec fn distance(bits: u32, num: int, den: int) -> int {
    let gap = num * pow2(149) - position(bits) * den;
    if gap < 0 {
        -gap
    } else {
        gap
    }
}

/// What `is_nearest` bounds, in steps: `|num / den|` less the absolute value
/// of the number, times `den`.
spec fn step_error(bits: u32, num: int, den: int) -> int {
    let absolute = if num < 0 {
        -num
    } else {
        num
    };
    absolute * pow2(149) - steps(bits) * den
}

/// The distance from a number to the next one farther from zero, in steps
/// and times `den`.
spec fn step_unit(bits: u32, den: int) -> int {
    pow2((parts(bits).scale - MIN_SCALE) as nat) * den
}

/// The significand of every pattern has at most 24 bits, and the full 24
/// above the lowest scale.
proof fn lemma_parts_bounds(bits: u32)
    ensures
        0 <= parts(bits).significand < 2 * HIDDEN_BIT,
        MIN_SCALE <= parts(bits).scale <= MAX_SCALE + 1,
        parts(bits).scale > MIN_SCALE ==> parts(bits).significand >= HIDDEN_BIT,
{
}

/// The bounds of `is_nearest`, taken to steps.
proof fn lemma_step_error(bits: u32, num: int, den: int)
    requires
        den > 0,
        is_nearest(bits, num, den),
    ensures
        step_unit(bits, den) > 0,
        2 * step_error(bits, num, den) <= step_unit(bits, den),
        2 * (-step_error(bits, num, den)) <= step_unit(bits, den),
        is_power_of_two(bits) ==> 4 * (-step_error(bits, num, den)) <= step_unit(bits, den),
        2 * step_error(bits, num, den) == step_unit(bits, den) || 2 * (-step_error(
            bits,
            num,
            den,
        )) == step_unit(bits, den) ==> parts(bits).significand % 2 == 0,
        distance(bits, num, den) == step_error(bits, num, den) || distance(bits, num, den)
            == -step_error(bits, num, den),
        distance(bits, num, den) >= 0,
{
    lemma_parts_bounds(bits);
    let absolute = if num < 0 {
        -num
    } else {
        num
    };
    let scale = parts(bits).scale as int;
    let significand = parts(bits).significand as int;
    let grid = pow2(149) as int;
    let step = pow2((scale + 149) as nat) as int;
    let reached = if numerator(bits) < 0 {
        -numerator(bits)
    } else {
        numerator(bits)
    };
    let err = absolute * denominator(bits) - reached * den;
    let error = step_error(bits, num, den);
    let whole = step_unit(bits, den);
    lemma_pow2_pos((scale + 149) as nat);
    lemma_pow2_pos(149);
    assert(whole > 0) by (nonlinear_arith)
        requires
            whole == step * den,
            step > 0,
            den > 0,
    ;
    // Both bounds scale by one positive factor on the way to steps.
    let factor = if scale < 0 {
        step
    } else {
        grid
    };
    assert(error == factor * err && whole == factor * (unit(bits) * den)) by {
        if scale < 0 {
            let power = pow2((-scale) as nat) as int;
            lemma_pow2_adds((-scale) as nat, (scale + 149) as nat);
            assert(reached == significand);
            assert(error == step * err) by (nonlinear_arith)
                requires
                    error == absolute * grid - (significand * step) * den,
                    err == absolute * power - significand * den,
                    grid == power * step,
            ;
            assert(whole == step * (1 * den)) by (nonlinear_arith)
                requires
                    whole == step * den,
            ;
        } else {
            let power = pow2(scale as nat) as int;
            lemma_pow2_adds(scale as nat, 149);
            lemma_pow2_pos(scale as nat);
            assert(significand * power >= 0) by (nonlinear_arith)
                requires
                    significand >= 0,
                    power > 0,
            ;
            assert(reached == significand * power);
            assert(error == grid * err) by (nonlinear_arith)
                requires
                    error == absolute * grid - (significand * step) * den,
                    err == absolute * 1 - (significand * power) * den,
                    step == power * grid,
            ;
            assert(whole == grid * (power * den)) by (nonlinear_arith)
                requires
                    whole == step * den,
                    step == power * grid,
            ;
        }
    }
    let bound = unit(bits) * den;
    assert(factor > 0);
    assert(2 * error <= whole) by (nonlinear_arith)
        requires
            2 * err <= bound,
            error == factor * err,
            whole == factor * bound,
            factor > 0,
    ;
    assert(2 * error == whole ==> 2 * err == bound) by (nonlinear_arith)
        requires
            error == factor * err,
            whole == factor * bound,
            factor > 0,
    ;
    assert(2 * (-error) == whole ==> 2 * (-err) == bound) by (nonlinear_arith)
        requires
            error == factor * err,
            whole == factor * bound,
            factor > 0,
    ;
    if is_power_of_two(bits) {
        assert(4 * (-error) <= whole) by (nonlinear_arith)
            requires
                4 * (-err) <= bound,
                error == factor * err,
                whole == factor * bound,
                factor > 0,
        ;
        assert(significand % 2 == 0);
    } else {
        assert(2 * (-error) <= whole) by (nonlinear_arith)
            requires
                2 * (-err) <= bound,
                error == factor * err,
                whole == factor * bound,
                factor > 0,
        ;
    }
    let place = position(bits);
    assert(num * grid - place * den == error || num * grid - place * den == -error)
        by (nonlinear_arith)
        requires
            error == absolute * grid - steps(bits) * den,
            (num < 0 && absolute == -num && place == -steps(bits)) || (num >= 0 && absolute == num
                && place == steps(bits)),
    ;
}

/// No number of single precision lies nearer to `num / den` than the one
/// that `is_nearest` holds of; and where another lies as near, the
/// significand of the one that it holds of is even.
pub proof fn lemma_nearest(bits: u32, other: u32, num: int, den: int)
    requires
        den > 0,
        is_nearest(bits, num, den),
    ensures
        distance(bits, num, den) <= distance(other, num, den),
        distance(bits, num, den) == distance(other, num, den) && position(other) != position(bits)
            ==> parts(bits).significand % 2 == 0,
{
    lemma_step_error(bits, num, den);
    lemma_parts_bounds(bits);
    lemma_parts_bounds(other);
    let absolute = if num < 0 {
        -num
    } else {
        num
    };
    let grid = pow2(149) as int;
    let scale = parts(bits).scale as int;
    let significand = parts(bits).significand as int;
    let step = pow2((scale + 149) as nat) as int;
    let other_scale = parts(other).scale as int;
    let other_significand = parts(other).significand as int;
    let other_step = pow2((other_scale + 149) as nat) as int;
    let error = step_error(bits, num, den);
    let whole = step_unit(bits, den);
    let target = absolute * grid;
    lemma_pow2_pos(149);
    lemma_pow2_pos((scale + 149) as nat);
    lemma_pow2_pos((other_scale + 149) as nat);
    assert(target >= 0) by (nonlinear_arith)
        requires
            target == absolute * grid,
            absolute >= 0,
            grid > 0,
    ;
    assert(steps(bits) * den == significand * whole) by (nonlinear_arith)
        requires
            steps(bits) == significand * step,
            whole == step * den,
    ;
    assert(error == target - significand * whole);
    let other_reach = steps(other) * den;
    assert(other_reach >= 0) by (nonlinear_arith)
        requires
            other_reach == (other_significand * other_step) * den,
            other_significand >= 0,
            other_step > 0,
            den > 0,
    ;
    let other_position = position(other);
    let other_gap = num * grid - other_position * den;
    if is_negative(other) != (num < 0) {
        // The other number lies beyond zero: it is at least as far away as
        // zero is.
        assert(other_gap == target + other_reach || other_gap == -(target + other_reach))
            by (nonlinear_arith)
            requires
                other_gap == num * grid - other_position * den,
                target == absolute * grid,
                other_reach == steps(other) * den,
                (num < 0 && absolute == -num && other_position == steps(other)) || (num >= 0
                    && absolute == num && other_position == -steps(other)),
        ;
        assert(distance(other, num, den) == target + other_reach);
        if error >= 0 {
            assert(significand * whole >= 0) by (nonlinear_arith)
                requires
                    significand >= 0,
                    whole > 0,
            ;
        } else {
            assert(significand >= 1) by (nonlinear_arith)
                requires
                    error == target - significand * whole,
                    error < 0,
                    target >= 0,
                    significand >= 0,
            ;
            assert(2 * target >= whole) by (nonlinear_arith)
                requires
                    error == target - significand * whole,
                    2 * (-error) <= whole,
                    significand >= 1,
                    whole > 0,
            ;
        }
        if distance(bits, num, den) == distance(other, num, den) {
            if error >= 0 {
                assert(significand * whole == 0);
                assert(significand == 0) by (nonlinear_arith)
                    requires
                        significand * whole == 0,
                        whole > 0,
                        significand >= 0,
                ;
            }
        }
    } else {
        let other_error = target - other_reach;
        assert(other_gap == other_error || other_gap == -other_error) by (nonlinear_arith)
            requires
                other_gap == num * grid - other_position * den,
                target == absolute * grid,
                other_error == target - steps(other) * den,
                (num < 0 && absolute == -num && other_position == -steps(other)) || (num >= 0
                    && absolute == num && other_position == steps(other)),
        ;
        if other_scale >= scale {
            // The other number is a whole number of this one's units.
            let ratio = pow2((other_scale - scale) as nat) as int;
            lemma_pow2_adds((other_scale - scale) as nat, (scale + 149) as nat);
            lemma_pow2_pos((other_scale - scale) as nat);
            let count = other_significand * ratio;
            assert(other_reach == count * whole) by (nonlinear_arith)
                requires
                    other_reach == (other_significand * other_step) * den,
                    other_step == ratio * step,
                    whole == step * den,
                    count == other_significand * ratio,
            ;
            if count != significand {
                assert(other_error >= whole + error || -other_error >= whole - error)
                    by (nonlinear_arith)
                    requires
                        other_error == target - count * whole,
                        error == target - significand * whole,
                        count != significand,
                        whole > 0,
                ;
            } else {
                assert(steps(other) == steps(bits)) by (nonlinear_arith)
                    requires
                        steps(other) == other_significand * (ratio * step),
                        steps(bits) == significand * step,
                        significand == other_significand * ratio,
                ;
            }
        } else {
            // The other number lies below every number of this one's scale.
            let ratio = pow2((scale - other_scale) as nat) as int;
            lemma_pow2_adds((scale - other_scale) as nat, (other_scale + 149) as nat);
            lemma_pow2_strictly_increases(0, (scale - other_scale) as nat);
            lemma2_to64();
            let other_whole = other_step * den;
            assert(other_whole > 0) by (nonlinear_arith)
                requires
                    other_whole == other_step * den,
                    other_step > 0,
                    den > 0,
            ;
            assert(whole == ratio * other_whole) by (nonlinear_arith)
                requires
                    whole == step * den,
                    step == ratio * other_step,
                    other_whole == other_step * den,
            ;
            assert(other_reach == other_significand * other_whole) by (nonlinear_arith)
                requires
                    other_reach == (other_significand * other_step) * den,
                    other_whole == other_step * den,
            ;
            // Twice the way from the other number up to this one is at
            // least one unit, and three where this one is no power of two.
            let way = significand * whole - other_reach;
            assert(2 * way >= whole && (significand > HIDDEN_BIT ==> 2 * way >= 3 * whole))
                by (nonlinear_arith)
                requires
                    way == significand * whole - other_significand * other_whole,
                    whole == ratio * other_whole,
                    ratio >= 2,
                    other_whole > 0,
                    significand >= 0x80_0000,
                    HIDDEN_BIT == 0x80_0000,
                    0 <= other_significand <= 0xff_ffff,
            ;
            assert(other_error == error + way);
        }
    }
}

/// Largest number of hundredths that [`from_hundredths`] takes: up to
/// here every whole number is a single-precision number itself.
pub const MAX_HUNDREDTHS: i32 = 0x100_0000;

/// The single-precision number nearest to `value / 100`: what the division
/// of `value` by 100 gives in single precision.
pub fn from_hundredths(value: i32) -> (bits: u32)
    requires
        -MAX_HUNDREDTHS <= value <= MAX_HUNDREDTHS,
    ensures
        is_finite(bits),
        is_nearest(bits, value as int, 100),
{
    if value == 0 {
        proof {
            lemma_pow2_pos(149);
        }
        return 0;
    }
    let negative = value < 0;
    let absolute: u64 = if negative {
        (-value) as u64
    } else {
        value as u64
    };
    let mut scaled: u64 = absolute;
    let mut shift: u32 = 0;
    proof {
        lemma2_to64();
    }
    while scaled < 838_860_800
        invariant
            1 <= absolute <= MAX_HUNDREDTHS,
            scaled == absolute * pow2(shift as nat),
            scaled < 1_677_721_600,
            shift <= 30,
            pow2(30) == 0x4000_0000,
        decreases 30 - shift,
    {
        proof {
            lemma_pow2_unfold((shift + 1) as nat);
            assert(absolute * (2 * pow2(shift as nat)) == 2 * (absolute * pow2(shift as nat)))
                by (nonlinear_arith);
            assert(pow2(shift as nat) <= absolute * pow2(shift as nat)) by (nonlinear_arith)
                requires
                    absolute >= 1,
            ;
            if shift < 29 {
                lemma_pow2_strictly_increases((shift + 1) as nat, 30);
            }
        }
        scaled = 2 * scaled;
        shift = shift + 1;
    }
    let quotient: u64 = scaled / 100;
    let rest: u64 = scaled % 100;
    let rounded: u64 = if rest > 50 || (rest == 50 && quotient % 2 == 1) {
        quotient + 1
    } else {
        quotient
    };
    assert(shift >= 6) by {
        if shift < 6 {
            if shift < 5 {
                lemma_pow2_strictly_increases(shift as nat, 5);
            }
            assert(absolute * pow2(shift as nat) <= 0x100_0000 * 32) by (nonlinear_arith)
                requires
                    0 <= absolute <= 0x100_0000,
                    0 <= pow2(shift as nat) <= 32,
            ;
        }
    }
    let ghost power = pow2(shift as nat) as int;
    let significand: u64 = if rounded == 0x100_0000 {
        0x80_0000
    } else {
        rounded
    };
    let exponent: u64 = if rounded == 0x100_0000 {
        (151 - shift) as u64
    } else {
        (150 - shift) as u64
    };
    let magnitude: u32 = (exponent * 0x80_0000 + (significand - 0x80_0000)) as u32;
    let bits: u32 = if negative {
        magnitude + SIGN_BIT
    } else {
        magnitude
    };
    proof {
        assert(parts(bits).significand == significand);
        assert(parts(bits).scale == exponent - 150);
        assert(parts(bits).negative == negative);
        assert(unit(bits) == 1);
        if rounded == 0x100_0000 {
            lemma_pow2_unfold(shift as nat);
            assert(denominator(bits) * 2 == power);
            assert(numerator(bits) == significand || numerator(bits) == -significand);
            let err = absolute * denominator(bits) - HIDDEN_BIT * 100;
            assert(2 * err == scaled - 100 * 0x100_0000) by (nonlinear_arith)
                requires
                    err == absolute * denominator(bits) - HIDDEN_BIT * 100,
                    denominator(bits) * 2 == power,
                    scaled == absolute * power,
                    HIDDEN_BIT == 0x80_0000,
            ;
        } else {
            assert(denominator(bits) == power);
        }
    }
    bits
}

} // verus!
