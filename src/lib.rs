//! Typed identifiers: a fixed-width unsigned integer wrapped in its own type,
//! with a canonical lowercase hexadecimal text form, a strategy that generates
//! raw values, and a validator that gates parsing.

use vstd::prelude::*;

mod error;
pub mod hex;
pub mod identifier;
pub mod laws;
pub mod raw;
mod sealed;
pub mod strategy;

pub use crate::error::ParseError;
pub use crate::identifier::{Id, Identifier};
pub use crate::raw::RawValue;
pub use crate::strategy::Strategy;

verus! {

/// A marker for identifier types whose debug output is their text form.
pub trait DebugId {
}

} // verus!
