//! Loading the input: a text that must hold one JSON array.

use crate::json::{array_elements, parse_value, parsed_json};
use serde_json::Value;
use vstd::prelude::*;

verus! {

/// Why an input was refused. Either way nothing of it is dispatched.
#[derive(Debug, PartialEq, Eq)]
pub enum LoadError {
    /// The text is not a JSON document. Holds the parser's description.
    Syntax(String),
    /// The document is well formed, but its root is not an array.
    NotArray,
}

/// The items that `text` holds: the elements of the array that it denotes, or
/// `None` where it denotes no JSON document or one whose root is no array.
pub open spec fn input_items(text: Seq<char>) -> Option<Seq<Value>> {
    match parsed_json(text) {
        Some(document) => array_elements(document),
        None => None,
    }
}

/// Parses `text` as one JSON document.
pub fn parse_document(text: &str) -> (parsed: Result<Value, LoadError>)
    ensures
        match parsed {
            Ok(document) => parsed_json(text@) == Some(document),
            Err(e) => parsed_json(text@) is None && e is Syntax,
        },
{
    match parse_value(text) {
        Ok(document) => Ok(document),
        Err(e) => Err(LoadError::Syntax(e.to_string())),
    }
}

/// The items of `document`, in input order. A root of any other shape than an
/// array is refused; an empty array is a valid input with nothing to do.
pub fn items_of(document: &Value) -> (items: Result<&Vec<Value>, LoadError>)
    ensures
        match items {
            Ok(elements) => array_elements(*document) == Some(elements@),
            Err(e) => array_elements(*document) is None && e is NotArray,
        },
{
    match document.as_array() {
        Some(elements) => Ok(elements),
        None => Err(LoadError::NotArray),
    }
}

/// A document and its items agree with what the text holds.
pub proof fn lemma_loaded_items(text: Seq<char>, document: Value, items: Seq<Value>)
    requires
        parsed_json(text) == Some(document),
        array_elements(document) == Some(items),
    ensures
        input_items(text) == Some(items),
{
}

} // verus!
