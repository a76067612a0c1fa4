use vstd::prelude::*;
use crate::raw::RawValue;

verus! {

/// How an identifier type makes and checks its raw values: a generator and a
/// validator, with whatever parameters the implementing type fixes.
pub trait Strategy<T: RawValue> {
    /// The raw values that the validator accepts.
    spec fn accepts(v: T) -> bool;

    /// What holds of every value the generator can return.
    spec fn may_generate(v: T) -> bool;

    /// Makes a fresh raw value.
    fn generate() -> (r: T)
        ensures
            Self::may_generate(r),
    ;

    /// Whether `v` is a well-formed raw value for this strategy.
    fn validate(v: T) -> (r: bool)
        ensures
            r == Self::accepts(v),
    ;
}

} // verus!
