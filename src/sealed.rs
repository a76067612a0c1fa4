use vstd::prelude::*;

verus! {

/// Limits `RawValue` to the three widths it is written for.
pub trait Sealed {
}

impl Sealed for u32 {
}

impl Sealed for u64 {
}

impl Sealed for u128 {
}

} // verus!
