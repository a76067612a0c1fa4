use vstd::prelude::*;

verus! {

/// Why a piece of text could not be read as an identifier.
#[derive(Debug, Clone, Copy, PartialEq, Eq, Structural)]
pub enum ParseError {
    /// Once its dashes are removed, the text does not have the number of
    /// digits that the identifier's width asks for.
    InvalidLength,
    /// The text has the right length but holds a character that is not a
    /// hexadecimal digit.
    InvalidChars,
    /// The text reads as a value that the identifier's strategy rejects.
    Invalid,
}

} // verus!
