//! The types of `serde_json` that pass through this library unopened.

use vstd::prelude::*;

verus! {

/// `serde_json::Value`, a JSON document as `serde_json` holds it. Nothing is
/// said of what is inside: [`crate::json::value_content`] names it.
#[verifier::external_type_specification]
#[verifier::external_body]
pub struct ExValue(serde_json::Value);

/// `serde_json::Error`, the error of reading or writing JSON text. Nothing is
/// said of what is inside, and nothing here reads it.
#[verifier::external_type_specification]
#[verifier::external_body]
pub struct ExJsonError(serde_json::Error);

} // verus!
