use vstd::prelude::*;
use vstd::string::StringExecFns;

verus! {

/// A measured quantity: a number with a unit.
pub trait Measurement: Copy {
    /// The unit as it is written behind the number.
    spec fn unit_text(&self) -> Seq<char>;

    /// The unit as it is written behind the number.
    fn unit(&self) -> (unit: &'static str)
        ensures
            unit@ == self.unit_text(),
    ;
}

/// A unit behind a number, with the blank that parts the two.
pub open spec fn spaced(unit: Seq<char>) -> Seq<char> {
    seq![' '] + unit
}

/// Writes a number, given as it is written, with a blank and the unit.
pub fn with_unit(number: &str, unit: &str) -> (text: String)
    ensures
        text@ == number@ + spaced(unit@),
{
    proof {
        reveal_strlit(" ");
    }
    let mut text = String::from_str(number);
    text.append(" ");
    text.append(unit);
    assert(text@ =~= number@ + spaced(unit@));
    text
}

} // verus!
