//! Error type used where a fallible operation carries an error value through.

use vstd::prelude::*;

verus! {

/// `anyhow::Error`, carried through unchanged (the library never looks inside it).
#[verifier::external_type_specification]
#[verifier::external_body]
pub struct ExAnyhowError(anyhow::Error);

/// The text of an error: `anyhow::Error`'s `Display` (through `to_string`), which prints the
/// outermost error's message. The text depends on the error's contents, which the library
/// never sees, so nothing is claimed of it.
#[verifier::external_body]
pub fn error_message(e: &anyhow::Error) -> (s: String) {
    e.to_string()
}

} // verus!
