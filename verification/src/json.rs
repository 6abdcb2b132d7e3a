//! The JSON library behind the loader and the statement builder.
//!
//! A JSON value is opaque here: it is parsed, handed around and written out
//! again, never inspected. What the library returns is named by the spec
//! functions of this module, and the declarations below state, without proof,
//! that its functions return what those names denote.

use vstd::prelude::*;

verus! {

/// `serde_json::Value`, a JSON value of any kind. Nothing is known of what
/// is inside.
#[verifier::external_type_specification]
#[verifier::external_body]
pub struct ExValue(serde_json::Value);

/// `serde_json::Error`, why a text was not parsed or a value not written.
#[verifier::external_type_specification]
#[verifier::external_body]
pub struct ExError(serde_json::Error);

/// The value that the JSON parser reads from `text`, or `None` where it
/// refuses `text`: as anything but one JSON value with white space around it,
/// as nested too deeply, or for a number out of range.
pub uninterp spec fn parsed_json(text: Seq<char>) -> Option<serde_json::Value>;

/// The elements of `value`, in order, where it is a JSON array; `None` where it
/// is of any other kind.
pub uninterp spec fn array_elements(value: serde_json::Value) -> Option<Seq<serde_json::Value>>;

/// The compact JSON text that the encoder writes for the array of `items`, in
/// order, or `None` where it refuses one of them.
pub uninterp spec fn json_array_text(items: Seq<serde_json::Value>) -> Option<Seq<char>>;

/// `serde_json::from_str`, at the type of a JSON value. Trusted: what it
/// returns depends on the text alone; `parsed_json` is the name of that
/// result, with the error left out.
#[verifier::external_body]
pub(crate) fn parse_value(text: &str) -> (parsed: Result<serde_json::Value, serde_json::Error>)
    ensures
        match parsed {
            Ok(value) => parsed_json(text@) == Some(value),
            Err(_) => parsed_json(text@) is None,
        },
{
    serde_json::from_str::<serde_json::Value>(text)
}

/// `serde_json::Value::as_array`. Trusted: for an array it returns the vector
/// of its elements, for every other value `None`; `array_elements` is the
/// name of that result.
pub assume_specification[ serde_json::Value::as_array ](value: &serde_json::Value) -> (items:
    Option<&Vec<serde_json::Value>>)
    ensures
        match items {
            Some(elements) => array_elements(*value) == Some(elements@),
            None => array_elements(*value) is None,
        },
;

/// `serde_json::to_string`, on a slice of JSON values. Trusted: what it
/// returns depends on the items alone; `json_array_text` is the name of that
/// result, with the error left out.
#[verifier::external_body]
pub(crate) fn encode_items(items: &[serde_json::Value]) -> (encoded: Result<String, serde_json::Error>)
    ensures
        match encoded {
            Ok(text) => json_array_text(items@) == Some(text@),
            Err(_) => json_array_text(items@) is None,
        },
{
    serde_json::to_string(items)
}

} // verus!
