//! Reading and writing JSON text, which is the work of `serde_json`.
//!
//! Everything in this module that touches a `serde_json` value is trusted:
//! Verus takes the contracts of those functions as given and does not read
//! their bodies. They are kept small, and what they claim is said above each
//! of them. The two public functions, [`parse`] and [`render`], are verified
//! against those contracts.

use crate::json::{Json, JsonDoc};
use serde_json::Value;
use vstd::prelude::*;

verus! {

/// `serde_json::Value`, a JSON value as `serde_json` holds it. Nothing of
/// its inside is known here.
#[verifier::external_type_specification]
#[verifier::external_body]
pub struct ExValue(serde_json::Value);

/// `serde_json::Error`, the error of reading a text. Nothing of its inside
/// is known here.
#[verifier::external_type_specification]
#[verifier::external_body]
pub struct ExError(serde_json::Error);

/// The document that a `serde_json::Value` holds: the same tree, each number
/// as the text that `serde_json` prints for it, each object's entries in the
/// order in which its map hands them out.
pub uninterp spec fn value_doc(value: serde_json::Value) -> JsonDoc;

/// What `serde_json::from_str` reads from a text: the document, or `None`
/// where it reports an error.
pub uninterp spec fn json_parse(text: Seq<char>) -> Option<JsonDoc>;

/// The document that `serde_json` holds once it has taken a document of this
/// library in, or `None` where it does not read one of the number literals.
pub uninterp spec fn json_encode(doc: JsonDoc) -> Option<JsonDoc>;

/// The compact text that `serde_json` prints for a document it holds.
pub uninterp spec fn json_text(doc: JsonDoc) -> Seq<char>;

/// Calls `serde_json::from_str` for a `serde_json::Value`. The contract only
/// names the outcome: whether the text is read, and as which document, is a
/// function of the text.
#[verifier::external_body]
fn value_from_text(text: &str) -> (read: Result<serde_json::Value, serde_json::Error>)
    ensures
        match read {
            Ok(value) => json_parse(text@) == Some(value_doc(value)),
            Err(_) => json_parse(text@) is None,
        },
{
    serde_json::from_str(text)
}

/// Copies a `serde_json::Value` into a [`Json`], variant by variant; a number
/// becomes the text of `serde_json::Number`'s `to_string`, an object the
/// entries of `serde_json::Map::iter`. The result is by definition what
/// `value_doc` names.
#[verifier::external_body]
fn document_of(value: &serde_json::Value) -> (doc: Json)
    ensures
        doc@ == value_doc(*value),
{
    match value {
        Value::Null => Json::Null,
        Value::Bool(flag) => Json::Bool(*flag),
        Value::Number(number) => Json::Number(number.to_string()),
        Value::String(text) => Json::Str(text.clone()),
        Value::Array(items) => Json::Array(items.iter().map(document_of).collect()),
        Value::Object(map) => Json::Object(
            map.iter().map(|(key, item)| (key.clone(), document_of(item))).collect(),
        ),
    }
}

/// Copies a [`Json`] into a `serde_json::Value`, variant by variant. A number
/// literal is read with `serde_json::from_str`, and where that fails the
/// result is `None`; an object's entries are collected into a
/// `serde_json::Map`. The contract only names the outcome.
#[verifier::external_body]
fn value_of(doc: &Json) -> (value: Option<serde_json::Value>)
    ensures
        match value {
            Some(held) => json_encode(doc@) == Some(value_doc(held)),
            None => json_encode(doc@) is None,
        },
{
    Some(
        match doc {
            Json::Null => Value::Null,
            Json::Bool(flag) => Value::Bool(*flag),
            Json::Number(text) => Value::Number(serde_json::from_str(text).ok()?),
            Json::Str(text) => Value::String(text.clone()),
            Json::Array(items) => Value::Array(items.iter().map(value_of).collect::<Option<_>>()?),
            Json::Object(entries) => Value::Object(
                entries.iter().map(|(key, item)| Some((key.clone(), value_of(item)?))).collect::<
                    Option<_>,
                >()?,
            ),
        },
    )
}

/// Calls `to_string` on a `serde_json::Value`, which prints it as compact
/// JSON. The text is a function of the document that the value holds.
#[verifier::external_body]
fn value_text(value: &serde_json::Value) -> (text: String)
    ensures
        text@ == json_text(value_doc(*value)),
{
    value.to_string()
}

/// What [`render`] writes for a document: the text of what `serde_json` holds
/// for it.
pub open spec fn rendered(doc: JsonDoc) -> Option<Seq<char>> {
    match json_encode(doc) {
        Some(held) => Some(json_text(held)),
        None => None,
    }
}

/// Reads a JSON text. `None` where `serde_json` rejects it.
pub fn parse(text: &str) -> (read: Option<Json>)
    ensures
        match read {
            Some(doc) => json_parse(text@) == Some(doc@),
            None => json_parse(text@) is None,
        },
{
    match value_from_text(text) {
        Ok(value) => Some(document_of(&value)),
        Err(_) => None,
    }
}

/// Writes a document as compact JSON text. `None` where the document holds a
/// number literal that `serde_json` does not read.
pub fn render(doc: &Json) -> (written: Option<String>)
    ensures
        match written {
            Some(text) => rendered(doc@) == Some(text@),
            None => rendered(doc@) is None,
        },
{
    match value_of(doc) {
        Some(value) => Some(value_text(&value)),
        None => None,
    }
}

} // verus!
