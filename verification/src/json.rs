//! JSON documents, read through `serde_json`.
//!
//! A document is a `serde_json::Value`. Nothing in this crate looks inside
//! one: each question about a document is one call into `serde_json`, and the
//! answer has a name below. The contracts here are trusted, not proved.

use vstd::prelude::*;
use serde_json::Value;

verus! {

/// `serde_json::Value`, a JSON document; nothing of its inside is known here.
#[verifier::external_type_specification]
#[verifier::external_body]
pub struct ExValue(serde_json::Value);

/// `serde_json::Error`, why a text is no JSON document; it is only passed on.
#[verifier::external_type_specification]
#[verifier::external_body]
pub struct ExError(serde_json::Error);

/// The document that `text` is, where it is JSON text.
pub uninterp spec fn parsed(text: Seq<char>) -> Option<Value>;

/// The elements of a document that is an array, in order.
pub uninterp spec fn elements(doc: Value) -> Option<Seq<Value>>;

/// What a document that is an object holds under `key`.
pub uninterp spec fn member(doc: Value, key: Seq<char>) -> Option<Value>;

/// The text of a document that is a string.
pub uninterp spec fn string_of(doc: Value) -> Option<Seq<char>>;

/// A document written out as compact JSON text.
pub uninterp spec fn rendered(doc: Value) -> Seq<char>;

/// Reads `text` as one JSON document.
///
/// Trusted: this is `serde_json::from_str` at the type `Value`. It returns the
/// document or an error, and which of them depends on `text` alone.
#[verifier::external_body]
pub(crate) fn parse(text: &str) -> (doc: Result<Value, serde_json::Error>)
    ensures
        match doc {
            Ok(v) => parsed(text@) == Some(v),
            Err(_) => parsed(text@) is None,
        },
{
    serde_json::from_str::<Value>(text)
}

/// `Value::as_array` hands out the vector of an array and nothing for any
/// other document.
pub assume_specification[ Value::as_array ](doc: &Value) -> (items: Option<&Vec<Value>>)
    ensures
        match items {
            Some(v) => elements(*doc) == Some(v@),
            None => elements(*doc) is None,
        },
;

/// `Value::as_str` hands out the text of a string and nothing for any other
/// document.
pub assume_specification[ Value::as_str ](doc: &Value) -> (text: Option<&str>)
    ensures
        match text {
            Some(s) => string_of(*doc) == Some(s@),
            None => string_of(*doc) is None,
        },
;

/// What `doc` holds under `key`.
///
/// Trusted: this is `Value::get` with a string key. It hands out the entry of
/// an object that has the key, and nothing where the document is no object or
/// has no such key.
#[verifier::external_body]
pub(crate) fn get<'a>(doc: &'a Value, key: &str) -> (found: Option<&'a Value>)
    ensures
        match found {
            Some(v) => member(*doc, key@) == Some(*v),
            None => member(*doc, key@) is None,
        },
{
    doc.get(key)
}

/// `doc` as compact JSON text.
///
/// Trusted: this is `to_string` on a `Value`, which goes through its `Display`
/// impl; that impl writes the document as compact JSON, a string in its
/// quotation marks.
#[verifier::external_body]
pub(crate) fn render(doc: &Value) -> (text: String)
    ensures
        text@ == rendered(*doc),
{
    doc.to_string()
}

} // verus!
