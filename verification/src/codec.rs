//! Reading and writing JSON text. The work is done by `serde_json`; nothing in
//! this file is proved, and everything else in the crate rests on it.

use crate::json::{Json, JsonView, Member};
use serde_json::Value;
use vstd::prelude::*;

verus! {

/// `serde_json::Value`, of which the verifier sees nothing: it only passes
/// between the functions of this file.
#[verifier::external_type_specification]
#[verifier::external_body]
pub struct ExValue(Value);

/// `serde_json::Number`, of which the verifier sees nothing: a number is
/// carried from the text that was read to the text that is written.
#[verifier::external_type_specification]
#[verifier::external_body]
pub struct ExNumber(serde_json::Number);

/// `Number::clone`: the copy is the same number.
pub assume_specification[ <serde_json::Number as Clone>::clone ](
    number: &serde_json::Number,
) -> (copy: serde_json::Number)
    ensures
        copy == *number,
;

/// The document that `serde_json::from_str` reads from a text, or `None` where
/// it reports an error.
pub uninterp spec fn json_parsed(text: Seq<char>) -> Option<JsonView>;

/// The compact text that `serde_json` writes for a document.
pub uninterp spec fn json_rendered(doc: JsonView) -> Seq<char>;

/// Moves a `serde_json::Value` into a [`Json`], variant by variant.
#[verifier::external_body]
fn lift(value: Value) -> Json {
    match value {
        Value::Null => Json::Null,
        Value::Bool(b) => Json::Bool(b),
        Value::Number(number) => Json::Number(number),
        Value::String(s) => Json::Text(s),
        Value::Array(items) => Json::Array(items.into_iter().map(lift).collect()),
        Value::Object(members) => Json::Object(
            members.into_iter().map(|(name, value)| Member { name, value: lift(value) }).collect(),
        ),
    }
}

/// Builds the `serde_json::Value` for a [`Json`], variant by variant.
#[verifier::external_body]
fn lower(doc: &Json) -> Value {
    match doc {
        Json::Null => Value::Null,
        Json::Bool(b) => Value::Bool(*b),
        Json::Number(number) => Value::Number(number.clone()),
        Json::Text(text) => Value::String(text.clone()),
        Json::Array(items) => Value::Array(items.iter().map(lower).collect()),
        Json::Object(members) => Value::Object(
            members.iter().map(|m| (m.name.clone(), lower(&m.value))).collect(),
        ),
    }
}

/// Calls `serde_json::from_str` for a `Value`. The contract only names the
/// outcome: the same text always reads as the same document.
#[verifier::external_body]
pub(crate) fn parse_text(text: &str) -> (parsed: Option<Json>)
    ensures
        parsed matches Some(doc) ==> json_parsed(text@) == Some(doc@),
        parsed is None ==> json_parsed(text@) is None,
{
    match serde_json::from_str::<Value>(text) {
        Ok(value) => Some(lift(value)),
        Err(_) => None,
    }
}

/// Calls `to_string` on the `Value` of a document. The contract only names the
/// outcome: equal documents are always written as the same text.
#[verifier::external_body]
pub(crate) fn render_text(doc: &Json) -> (rendered: String)
    ensures
        rendered@ == json_rendered(doc@),
{
    lower(doc).to_string()
}

} // verus!
