use vstd::prelude::*;
use crate::error::ParseError;
use crate::hex::{all_hex, encode, decode_digits, hex_digits, hex_value, normalize_chars, normalized, lemma_hex_value_bound};
use crate::raw::RawValue;
use crate::strategy::Strategy;
use core::marker::PhantomData;

verus! {

/// The number of hexadecimal digits in the text of a `T`.
pub open spec fn hex_len<T: RawValue>() -> nat {
    T::bits() / 4
}

/// The canonical text of a raw value: `hex_len` lowercase digits, zero-padded.
pub open spec fn canonical<T: RawValue>(v: T) -> Seq<char> {
    hex_digits(v.value(), hex_len::<T>())
}

/// What the text `s` reads as, before any validator is asked.
pub open spec fn read_text<T: RawValue>(s: Seq<char>) -> Result<T, ParseError> {
    let d = normalized(s);
    if d.len() != hex_len::<T>() {
        Err(ParseError::InvalidLength)
    } else if !all_hex(d) {
        Err(ParseError::InvalidChars)
    } else {
        Ok(T::from_value(hex_value(d)))
    }
}

/// What parsing `s` gives, for a validator that accepts the values `accepts` holds of.
pub open spec fn parse_outcome<T: RawValue>(s: Seq<char>, accepts: spec_fn(T) -> bool) -> Result<
    T,
    ParseError,
> {
    match read_text::<T>(s) {
        Ok(v) => if accepts(v) {
            Ok(v)
        } else {
            Err(ParseError::Invalid)
        },
        Err(e) => Err(e),
    }
}

/// Reads the text `s` as a raw value, with no validation: dashes are dropped,
/// the rest must be exactly `hex_len` hexadecimal digits, in either case.
pub fn read_raw<T: RawValue>(s: &str) -> (r: Result<T, ParseError>)
    ensures
        r == read_text::<T>(s@),
{
    let d = normalize_chars(s);
    let n = T::hex_length();
    proof {
        T::lemma_bits();
    }
    if d.len() != n {
        return Err(ParseError::InvalidLength);
    }
    match decode_digits(&d) {
        None => Err(ParseError::InvalidChars),
        Some(v) => {
            proof {
                lemma_hex_value_bound(d@);
            }
            Ok(T::from_u128(v))
        },
    }
}

/// The canonical text of `v`.
pub fn format_raw<T: RawValue>(v: T) -> (r: String)
    ensures
        r@ == canonical::<T>(v),
{
    encode(v.to_u128(), T::hex_length())
}

/// An identifier type: a raw value of type `T` with a text form and a
/// strategy that makes and checks its values.
pub trait Identifier<T: RawValue>: Sized + Eq {
    /// The raw value wrapped.
    spec fn raw(&self) -> T;

    /// The raw values that the identifier's validator accepts.
    spec fn accepts(v: T) -> bool;

    /// What holds of every raw value that the identifier's generator returns.
    spec fn may_generate(v: T) -> bool;

    /// A fresh identifier from the generator, not validated.
    fn generate() -> (r: Self)
        ensures
            Self::may_generate(r.raw()),
    ;

    /// Wraps `v`, not validated.
    fn new(v: T) -> (r: Self)
        ensures
            r.raw() == v,
    ;

    /// Reads an identifier from text: dashes anywhere are ignored, the rest
    /// must be the right number of hexadecimal digits, and the validator must
    /// accept the value.
    fn parse_str(s: &str) -> (r: Result<Self, ParseError>)
        ensures
            match r {
                Ok(id) => parse_outcome::<T>(s@, (|v: T| Self::accepts(v))) == Ok::<
                    T,
                    ParseError,
                >(id.raw()),
                Err(e) => parse_outcome::<T>(s@, (|v: T| Self::accepts(v))) == Err::<
                    T,
                    ParseError,
                >(e),
            },
    ;

    /// The canonical text: lowercase digits, zero-padded, no dashes.
    fn format(&self) -> (r: String)
        ensures
            r@ == canonical::<T>(self.raw()),
    ;

    /// The raw value wrapped.
    fn inner_value(&self) -> (r: T)
        ensures
            r == self.raw(),
    ;
}

/// An identifier of width `T` whose values are made and checked by `S`.
#[derive(Debug)]
#[verifier::reject_recursive_types(S)]
pub struct Id<T, S> {
    raw: T,
    strategy: PhantomData<S>,
}

impl<T, S> View for Id<T, S> {
    type V = T;

    closed spec fn view(&self) -> T {
        self.raw
    }
}

impl<T: RawValue, S: Strategy<T>> Identifier<T> for Id<T, S> {
    open spec fn raw(&self) -> T {
        self@
    }

    open spec fn accepts(v: T) -> bool {
        S::accepts(v)
    }

    open spec fn may_generate(v: T) -> bool {
        S::may_generate(v)
    }

    fn generate() -> (r: Self) {
        Id { raw: S::generate(), strategy: PhantomData }
    }

    fn new(v: T) -> (r: Self) {
        Id { raw: v, strategy: PhantomData }
    }

    fn parse_str(s: &str) -> (r: Result<Self, ParseError>) {
        match read_raw::<T>(s) {
            Err(e) => Err(e),
            Ok(v) => if S::validate(v) {
                Ok(Id { raw: v, strategy: PhantomData })
            } else {
                Err(ParseError::Invalid)
            },
        }
    }

    fn format(&self) -> (r: String) {
        format_raw(self.raw)
    }

    fn inner_value(&self) -> (r: T) {
        self.raw
    }
}

impl<T: RawValue, S> PartialEq for Id<T, S> {
    fn eq(&self, o: &Self) -> (r: bool) {
        proof {
            self.raw.lemma_value();
            o.raw.lemma_value();
        }
        self.raw.to_u128() == o.raw.to_u128()
    }
}

impl<T: RawValue, S> vstd::std_specs::cmp::PartialEqSpecImpl for Id<T, S> {
    open spec fn obeys_eq_spec() -> bool {
        true
    }

    open spec fn eq_spec(&self, o: &Self) -> bool {
        self@ == o@
    }
}

impl<T: RawValue, S> Eq for Id<T, S> {
}

impl<T: RawValue, S: Strategy<T>> core::str::FromStr for Id<T, S> {
    type Err = ParseError;

    fn from_str(s: &str) -> (r: Result<Self, ParseError>)
        ensures
            match r {
                Ok(id) => parse_outcome::<T>(s@, (|v: T| S::accepts(v))) == Ok::<T, ParseError>(
                    id.raw(),
                ),
                Err(e) => parse_outcome::<T>(s@, (|v: T| S::accepts(v))) == Err::<T, ParseError>(
                    e,
                ),
            },
    {
        Self::parse_str(s)
    }
}

} // verus!
