use vstd::prelude::*;
use crate::error::ParseError;
use crate::hex::{
    all_hex, hex_value, is_hex_digit, lemma_hex_digits, lemma_normalized_hex,
    lemma_normalized_insert_dash, normalized,
};
use crate::identifier::{canonical, hex_len, parse_outcome, Identifier};
use crate::raw::RawValue;

verus! {

/// Round trip: the canonical text of a raw value that the validator accepts
/// parses back to that same value.
pub proof fn lemma_round_trip<T: RawValue, I: Identifier<T>>(v: T)
    requires
        I::accepts(v),
    ensures
        parse_outcome::<T>(canonical::<T>(v), (|w: T| I::accepts(w))) == Ok::<T, ParseError>(v),
{
    v.lemma_value();
    lemma_hex_digits(v.value(), hex_len::<T>());
    lemma_normalized_hex(canonical::<T>(v));
}

/// Text whose length without dashes is not the width's digit count is
/// refused for its length, whatever characters it holds.
pub proof fn lemma_length_refused<T: RawValue, I: Identifier<T>>(s: Seq<char>)
    requires
        normalized(s).len() != hex_len::<T>(),
    ensures
        parse_outcome::<T>(s, (|w: T| I::accepts(w))) == Err::<T, ParseError>(
            ParseError::InvalidLength,
        ),
{
}

/// Text of the right length without dashes that holds a character other
/// than a hexadecimal digit is refused for its characters.
pub proof fn lemma_chars_refused<T: RawValue, I: Identifier<T>>(s: Seq<char>, i: int)
    requires
        normalized(s).len() == hex_len::<T>(),
        0 <= i < normalized(s).len(),
        !is_hex_digit(normalized(s)[i]),
    ensures
        parse_outcome::<T>(s, (|w: T| I::accepts(w))) == Err::<T, ParseError>(
            ParseError::InvalidChars,
        ),
{
}

/// Text of the right length and digits whose value the validator rejects is
/// refused as invalid.
pub proof fn lemma_validator_refuses<T: RawValue, I: Identifier<T>>(s: Seq<char>)
    requires
        normalized(s).len() == hex_len::<T>(),
        all_hex(normalized(s)),
        !I::accepts(T::from_value(hex_value(normalized(s)))),
    ensures
        parse_outcome::<T>(s, (|w: T| I::accepts(w))) == Err::<T, ParseError>(ParseError::Invalid),
{
}

/// A dash inserted at any place in the text leaves the outcome of parsing as it was.
pub proof fn lemma_dash_inserted<T: RawValue, I: Identifier<T>>(s: Seq<char>, i: int)
    requires
        0 <= i <= s.len(),
    ensures
        parse_outcome::<T>(s.insert(i, '-'), (|w: T| I::accepts(w))) == parse_outcome::<T>(
            s,
            (|w: T| I::accepts(w)),
        ),
{
    lemma_normalized_insert_dash(s, i);
}

/// Two texts that are the same once their dashes are removed parse alike.
pub proof fn lemma_dashes_ignored<T: RawValue, I: Identifier<T>>(s: Seq<char>, t: Seq<char>)
    requires
        normalized(s) == normalized(t),
    ensures
        parse_outcome::<T>(s, (|w: T| I::accepts(w))) == parse_outcome::<T>(
            t,
            (|w: T| I::accepts(w)),
        ),
{
}

/// Where the validator accepts every value that the generator can return, a
/// generated identifier's canonical text parses back to its raw value.
pub proof fn lemma_generated_round_trip<T: RawValue, I: Identifier<T>>(id: I)
    requires
        I::may_generate(id.raw()),
        forall|w: T| I::may_generate(w) ==> I::accepts(w),
    ensures
        parse_outcome::<T>(canonical::<T>(id.raw()), (|w: T| I::accepts(w))) == Ok::<
            T,
            ParseError,
        >(id.raw()),
{
    lemma_round_trip::<T, I>(id.raw());
}

} // verus!
