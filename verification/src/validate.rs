//! The validation capability handed to text prompts.

use vstd::prelude::*;

verus! {

/// A validator for prompt input: called on the candidate value, it accepts or
/// rejects with a message. Hosts implement it for their own rule types; the
/// prompts only rely on the call returning some verdict.
pub trait Validate<T> {
    /// The rejection type.
    type Err;

    /// Checks the candidate input.
    fn validate(&self, input: &T) -> Result<(), Self::Err>;
}

/// The validator of a prompt that was given none: it accepts everything.
pub struct Unvalidated;

impl Validate<String> for Unvalidated {
    type Err = String;

    fn validate(&self, _input: &String) -> Result<(), String> {
        Ok(())
    }
}

} // verus!
