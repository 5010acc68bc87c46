use vstd::prelude::*;
use vstd::std_specs::cmp::PartialEqSpecImpl;

verus! {

/// A value that counts as equal to no value of its type, itself
/// included: wrapped in this, every value handed on is seen as a change.
#[derive(Debug, Clone)]
pub struct NeverEqual<T>(pub T);

impl<T> NeverEqual<T> {
    /// The value inside.
    pub fn into_inner(self) -> (inner: T)
        ensures
            inner == self.0,
    {
        self.0
    }
}

impl<T> PartialEq for NeverEqual<T> {
    fn eq(&self, other: &Self) -> (equal: bool) {
        false
    }
}

impl<T> PartialEqSpecImpl for NeverEqual<T> {
    open spec fn obeys_eq_spec() -> bool {
        true
    }

    open spec fn eq_spec(&self, other: &Self) -> bool {
        false
    }
}

} // verus!
