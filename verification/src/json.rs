//! Reading values out of JSON text with `serde_json`.
//!
//! A document is parsed into a `serde_json::Value` and a value is looked up
//! in it by a JSON pointer (RFC 6901). What a lookup gives depends on the
//! document text and the pointer alone, so each reading has a name here.
use vstd::prelude::*;

use crate::text::string_views;

verus! {

/// Name for whether `serde_json` parses the text as a JSON document.
pub uninterp spec fn json_valid(doc: Seq<char>) -> bool;

/// Name for the string that stands at the pointer in the parsed document;
/// none when the text does not parse, nothing stands there, or it is not a
/// string.
pub uninterp spec fn json_str_at(doc: Seq<char>, pointer: Seq<char>) -> Option<Seq<char>>;

/// Name for the items of the array that stands at the pointer in the parsed
/// document, each written back as compact JSON text; none when the text
/// does not parse, nothing stands there, or it is not an array.
pub uninterp spec fn json_items_at(doc: Seq<char>, pointer: Seq<char>) -> Option<Seq<Seq<char>>>;

/// Name for the value that stands at the pointer in the parsed document,
/// written back as compact JSON text; none when the text does not parse or
/// nothing stands there.
pub uninterp spec fn json_text_at(doc: Seq<char>, pointer: Seq<char>) -> Option<Seq<char>>;

/// Calls `serde_json::from_str` into a `Value`: whether the text is a JSON
/// document.
#[verifier::external_body]
pub(crate) fn is_json(doc: &str) -> (r: bool)
    ensures
        r == json_valid(doc@),
{
    serde_json::from_str::<serde_json::Value>(doc).is_ok()
}

/// Calls `serde_json::from_str` into a `Value`, then `Value::pointer` and
/// `Value::as_str`: the string at the pointer, if the document has one there.
#[verifier::external_body]
pub(crate) fn json_string_at(doc: &str, pointer: &str) -> (r: Option<String>)
    ensures
        r matches Some(s) ==> json_str_at(doc@, pointer@) == Some(s@),
        r is None ==> json_str_at(doc@, pointer@) is None,
{
    let v = serde_json::from_str::<serde_json::Value>(doc).ok()?;
    v.pointer(pointer).and_then(|c| c.as_str()).map(|s| s.to_string())
}

/// Calls `serde_json::from_str` into a `Value`, then `Value::pointer`,
/// `Value::as_array` and `Value::to_string` on each item: the items of the
/// array at the pointer, as JSON text, if the document has one there.
#[verifier::external_body]
pub(crate) fn json_array_items_at(doc: &str, pointer: &str) -> (r: Option<Vec<String>>)
    ensures
        r matches Some(v) ==> json_items_at(doc@, pointer@) == Some(string_views(v@)),
        r is None ==> json_items_at(doc@, pointer@) is None,
{
    let v = serde_json::from_str::<serde_json::Value>(doc).ok()?;
    v.pointer(pointer).and_then(|a| a.as_array()).map(|a| a.iter().map(|x| x.to_string()).collect())
}

/// Calls `serde_json::from_str` into a `Value`, then `Value::pointer` and
/// `Value::to_string`: the value at the pointer as JSON text, if the
/// document has one there.
#[verifier::external_body]
pub(crate) fn json_value_text_at(doc: &str, pointer: &str) -> (r: Option<String>)
    ensures
        r matches Some(s) ==> json_text_at(doc@, pointer@) == Some(s@),
        r is None ==> json_text_at(doc@, pointer@) is None,
{
    let v = serde_json::from_str::<serde_json::Value>(doc).ok()?;
    v.pointer(pointer).map(|x| x.to_string())
}

} // verus!
