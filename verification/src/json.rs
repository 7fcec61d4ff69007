//! The JSON types that records, embeds and errors are carried in.
use vstd::prelude::*;

verus! {

/// A JSON document (serde_json's `Value`), carried through the library unread.
#[verifier::external_type_specification]
#[verifier::external_body]
pub struct ExJsonValue(serde_json::Value);

/// serde_json's `Clone` for `Value`; nothing is stated of the copy.
pub assume_specification[ <serde_json::Value as core::clone::Clone>::clone ](v: &serde_json::Value) -> serde_json::Value;

/// A JSON (de)serialisation failure (serde_json's `Error`).
#[verifier::external_type_specification]
#[verifier::external_body]
pub struct ExJsonError(serde_json::Error);

/// The message of a JSON failure, as serde_json's `Display` writes it; nothing is stated of it.
#[verifier::external_body]
pub(crate) fn json_error_message(e: &serde_json::Error) -> String {
    e.to_string()
}

} // verus!
