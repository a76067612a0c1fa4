use vstd::prelude::*;
use crate::hex::pow16;
use crate::sealed::Sealed;

verus! {

/// The unsigned integer that an identifier wraps: 32, 64 or 128 bits wide.
pub trait RawValue: Copy + Sized + Sealed {
    /// The width in bits.
    spec fn bits() -> nat;

    /// The number that the value stands for.
    spec fn value(self) -> nat;

    /// The raw value that stands for `v`, for `v` below `16^(bits / 4)`.
    spec fn from_value(v: nat) -> Self;

    proof fn lemma_bits()
        ensures
            Self::bits() == 32 || Self::bits() == 64 || Self::bits() == 128,
    ;

    proof fn lemma_value(self)
        ensures
            self.value() < pow16(Self::bits() / 4),
            Self::from_value(self.value()) == self,
    ;

    proof fn lemma_from_value(v: nat)
        requires
            v < pow16(Self::bits() / 4),
        ensures
            Self::from_value(v).value() == v,
    ;

    /// The number of hexadecimal digits of the textual form: a quarter of the width.
    fn hex_length() -> (r: usize)
        ensures
            r as nat == Self::bits() / 4,
    ;

    fn to_u128(self) -> (r: u128)
        ensures
            r as nat == self.value(),
    ;

    fn from_u128(v: u128) -> (r: Self)
        requires
            (v as nat) < pow16(Self::bits() / 4),
        ensures
            r == Self::from_value(v as nat),
    ;
}

impl RawValue for u32 {
    open spec fn bits() -> nat {
        32
    }

    open spec fn value(self) -> nat {
        self as nat
    }

    open spec fn from_value(v: nat) -> u32 {
        v as u32
    }

    proof fn lemma_bits() {
    }

    proof fn lemma_value(self) {
        reveal_with_fuel(pow16, 9);
    }

    proof fn lemma_from_value(v: nat) {
        reveal_with_fuel(pow16, 9);
    }

    fn hex_length() -> (r: usize) {
        8
    }

    fn to_u128(self) -> (r: u128) {
        self as u128
    }

    fn from_u128(v: u128) -> (r: u32) {
        proof {
            reveal_with_fuel(pow16, 9);
        }
        v as u32
    }
}

impl RawValue for u64 {
    open spec fn bits() -> nat {
        64
    }

    open spec fn value(self) -> nat {
        self as nat
    }

    open spec fn from_value(v: nat) -> u64 {
        v as u64
    }

    proof fn lemma_bits() {
    }

    proof fn lemma_value(self) {
        reveal_with_fuel(pow16, 17);
    }

    proof fn lemma_from_value(v: nat) {
        reveal_with_fuel(pow16, 17);
    }

    fn hex_length() -> (r: usize) {
        16
    }

    fn to_u128(self) -> (r: u128) {
        self as u128
    }

    fn from_u128(v: u128) -> (r: u64) {
        proof {
            reveal_with_fuel(pow16, 17);
        }
        v as u64
    }
}

impl RawValue for u128 {
    open spec fn bits() -> nat {
        128
    }

    open spec fn value(self) -> nat {
        self as nat
    }

    open spec fn from_value(v: nat) -> u128 {
        v as u128
    }

    proof fn lemma_bits() {
    }

    proof fn lemma_value(self) {
        reveal_with_fuel(pow16, 33);
    }

    proof fn lemma_from_value(v: nat) {
        reveal_with_fuel(pow16, 33);
    }

    fn hex_length() -> (r: usize) {
        32
    }

    fn to_u128(self) -> (r: u128) {
        self
    }

    fn from_u128(v: u128) -> (r: u128) {
        v
    }
}

} // verus!
