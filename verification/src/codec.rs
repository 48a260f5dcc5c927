//! JSON text, read and written by `serde_json`.

use vstd::prelude::*;

verus! {

/// Declares `serde_json::Error`, the error of reading and writing JSON,
/// as a type of which nothing is known.
#[verifier::external_type_specification]
#[verifier::external_body]
pub struct ExJsonError(serde_json::Error);

/// Declares `serde_json::Value`, a JSON document, as a type of which
/// nothing is known.
#[verifier::external_type_specification]
#[verifier::external_body]
pub struct ExJsonValue(serde_json::Value);

/// The list of strings that a JSON text denotes; `None` where the text is
/// not JSON or is not a list of strings.
pub uninterp spec fn json_string_list(text: Seq<char>) -> Option<Seq<Seq<char>>>;

/// The JSON text of a list of strings.
pub uninterp spec fn json_text_of_list(names: Seq<Seq<char>>) -> Seq<char>;

/// The JSON document that a text denotes; `None` where the text is not
/// JSON.
pub uninterp spec fn json_value_of_text(text: Seq<char>) -> Option<serde_json::Value>;

/// The JSON text of a document; `None` where the document cannot be
/// written.
pub uninterp spec fn json_text_of_value(value: serde_json::Value) -> Option<Seq<char>>;

/// Reads a list of strings with `serde_json::from_str`. The claim: success
/// and the list read depend on the text alone, and are named
/// `json_string_list`.
#[verifier::external_body]
pub(crate) fn decode_string_list(text: &str) -> (r: Result<Vec<String>, serde_json::Error>)
    ensures
        match r {
            Ok(names) => json_string_list(text@) == Some(names.deep_view()),
            Err(_) => json_string_list(text@) is None,
        },
{
    serde_json::from_str::<Vec<String>>(text)
}

/// Writes a list of strings with `serde_json::to_string`. The claims: the
/// call succeeds, and the text written depends on the list alone and is
/// named `json_text_of_list`. It succeeds because the writer is a byte
/// vector, which takes every write, and a list of strings has neither a
/// map key nor a `Serialize` that fails: the serializer has no other
/// source of error.
#[verifier::external_body]
pub(crate) fn encode_string_list(names: &Vec<String>) -> (r: Result<String, serde_json::Error>)
    ensures
        match r {
            Ok(text) => text@ == json_text_of_list(names.deep_view()),
            Err(_) => false,
        },
{
    serde_json::to_string(names)
}

/// Reads a JSON document with `serde_json::from_str`. The claim: success
/// and the document read depend on the text alone, and are named
/// `json_value_of_text`.
#[verifier::external_body]
pub(crate) fn decode_value(text: &str) -> (r: Result<serde_json::Value, serde_json::Error>)
    ensures
        match r {
            Ok(value) => json_value_of_text(text@) == Some(value),
            Err(_) => json_value_of_text(text@) is None,
        },
{
    serde_json::from_str::<serde_json::Value>(text)
}

/// Writes a JSON document with `serde_json::to_string`. The claim: success
/// and the text written depend on the document alone, and are named
/// `json_text_of_value`.
#[verifier::external_body]
pub(crate) fn encode_value(value: &serde_json::Value) -> (r: Result<String, serde_json::Error>)
    ensures
        match r {
            Ok(text) => json_text_of_value(*value) == Some(text@),
            Err(_) => json_text_of_value(*value) is None,
        },
{
    serde_json::to_string(value)
}

/// The message of a `serde_json::Error`, as its `Display` writes it.
/// Nothing is claimed of the text.
#[verifier::external_body]
pub(crate) fn error_text(error: &serde_json::Error) -> String {
    error.to_string()
}

} // verus!
