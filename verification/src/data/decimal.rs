//! Numbers written in decimal digits.
//!
//! A value that is kept in hundredths is written as the shortest decimal
//! numeral that names it: no fraction where the value is whole, one digit
//! after the point where that is enough.  This is also how the
//! single-precision number nearest to such a value prints.

use vstd::prelude::*;
use vstd::string::StringExecFns;

verus! {

/// The character of a digit.
pub open spec fn digit_char(digit: int) -> char {
    if digit == 0 {
        '0'
    } else if digit == 1 {
        '1'
    } else if digit == 2 {
        '2'
    } else if digit == 3 {
        '3'
    } else if digit == 4 {
        '4'
    } else if digit == 5 {
        '5'
    } else if digit == 6 {
        '6'
    } else if digit == 7 {
        '7'
    } else if digit == 8 {
        '8'
    } else {
        '9'
    }
}

/// The decimal numeral of `n`, without leading zeros.
pub open spec fn digits(n: nat) -> Seq<char>
    decreases n,
{
    if n < 10 {
        seq![digit_char(n as int)]
    } else {
        digits(n / 10).push(digit_char((n % 10) as int))
    }
}

/// What follows the whole part of a number with `rest` hundredths beyond
/// it, `rest` below 100: nothing, or a point and one or two digits, the last
/// of which is not zero.
pub open spec fn fraction_text(rest: nat) -> Seq<char> {
    if rest == 0 {
        Seq::empty()
    } else if rest % 10 == 0 {
        seq!['.', digit_char((rest / 10) as int)]
    } else {
        seq!['.', digit_char((rest / 10) as int), digit_char((rest % 10) as int)]
    }
}

/// The decimal numeral of `n / 100`.
pub open spec fn hundredths_text(n: nat) -> Seq<char> {
    digits(n / 100) + fraction_text(n % 100)
}

/// The decimal numeral of `n / 100`, with a minus sign where it is negative.
pub open spec fn signed_hundredths_text(n: int) -> Seq<char> {
    if n < 0 {
        seq!['-'] + hundredths_text((-n) as nat)
    } else {
        hundredths_text(n as nat)
    }
}

/// The digit as a string of one character.
fn digit_text(digit: u32) -> (text: &'static str)
    requires
        digit < 10,
    ensures
        text@ == seq![digit_char(digit as int)],
{
    proof {
        reveal_strlit("0");
        reveal_strlit("1");
        reveal_strlit("2");
        reveal_strlit("3");
        reveal_strlit("4");
        reveal_strlit("5");
        reveal_strlit("6");
        reveal_strlit("7");
        reveal_strlit("8");
        reveal_strlit("9");
    }
    let text = if digit == 0 {
        "0"
    } else if digit == 1 {
        "1"
    } else if digit == 2 {
        "2"
    } else if digit == 3 {
        "3"
    } else if digit == 4 {
        "4"
    } else if digit == 5 {
        "5"
    } else if digit == 6 {
        "6"
    } else if digit == 7 {
        "7"
    } else if digit == 8 {
        "8"
    } else {
        "9"
    };
    assert(text@ =~= seq![digit_char(digit as int)]);
    text
}

/// Appends the decimal numeral of `n` to `text`.
pub fn push_digits(text: &mut String, n: u32)
    ensures
        final(text)@ == old(text)@ + digits(n as nat),
    decreases n,
{
    if n >= 10 {
        push_digits(text, n / 10);
    }
    text.append(digit_text(n % 10));
    assert(text@ =~= old(text)@ + digits(n as nat));
}

/// Appends the decimal numeral of `n / 100` to `text`.
pub fn push_hundredths(text: &mut String, n: u32)
    ensures
        final(text)@ == old(text)@ + hundredths_text(n as nat),
{
    push_digits(text, n / 100);
    let rest = n % 100;
    if rest != 0 {
        proof {
            reveal_strlit(".");
        }
        text.append(".");
        text.append(digit_text(rest / 10));
        if rest % 10 != 0 {
            text.append(digit_text(rest % 10));
        }
    }
    assert(text@ =~= old(text)@ + hundredths_text(n as nat));
}

/// Appends the decimal numeral of `n / 100` to `text`, with its sign.
pub fn push_signed_hundredths(text: &mut String, n: i32)
    requires
        n > i32::MIN,
    ensures
        final(text)@ == old(text)@ + signed_hundredths_text(n as int),
{
    if n < 0 {
        proof {
            reveal_strlit("-");
        }
        text.append("-");
        push_hundredths(text, (-n) as u32);
    } else {
        push_hundredths(text, n as u32);
    }
    assert(text@ =~= old(text)@ + signed_hundredths_text(n as int));
}

} // verus!
