//! JSON text, read into juno values and written from them with serde_json.

use vstd::prelude::*;
use crate::value::{JunoNumber, JunoValue, JunoValueView};
use juno::models::Number as Classified;
use serde_json::Value as Json;

verus! {

/// A JSON value as serde_json holds it, carried opaquely between the two
/// conversions below.
#[verifier::external_type_specification]
#[verifier::external_body]
pub struct ExJsonValue(serde_json::Value);

/// The value that serde_json reads from `text`, with numbers classified as
/// juno classifies them; `None` when serde_json does not read `text` as JSON.
pub uninterp spec fn parsed_json(text: Seq<char>) -> Option<JunoValueView>;

/// The compact JSON text that serde_json writes for a value.
pub uninterp spec fn json_text(v: JunoValueView) -> Seq<char>;

/// Reads `text` as JSON with `serde_json::from_str`: the value read, or
/// `None` when serde_json reports an error. The contract names the result
/// and says nothing more of it.
#[verifier::external_body]
pub fn parse_json(text: &str) -> (r: Option<JunoValue>)
    ensures
        match r {
            Some(v) => parsed_json(text@) == Some(v@),
            None => parsed_json(text@) is None,
        },
{
    match serde_json::from_str(text) {
        Ok(json) => Some(convert_from_json(json)),
        Err(_) => None,
    }
}

/// The juno value of a request or response body declared as JSON: what the
/// text reads as, or `Null` when it is not JSON.
pub open spec fn json_body(text: Seq<char>) -> JunoValueView {
    match parsed_json(text) {
        Some(v) => v,
        None => JunoValueView::Null,
    }
}

/// Reads a body declared as JSON: its value, or `Null` when it is not JSON.
pub fn read_json_body(text: &str) -> (r: JunoValue)
    ensures
        r@ == json_body(text@),
{
    match parse_json(text) {
        Some(v) => v,
        None => JunoValue::Null,
    }
}

/// Writes a value as compact JSON text with serde_json's `Display` for its
/// values (`to_string`). The contract names the result and says nothing more of it.
#[verifier::external_body]
pub fn write_json(v: &JunoValue) -> (text: String)
    ensures
        text@ == json_text(v@),
{
    convert_to_json(v).to_string()
}

/// The juno value for a serde_json value, variant for variant; a number is
/// classified with juno's `From<serde_json::Number>`. Called only by `parse_json`.
#[verifier::external_body]
fn convert_from_json(json: Json) -> JunoValue {
    match json {
        Json::Null => JunoValue::Null,
        Json::Bool(b) => JunoValue::Bool(b),
        Json::Number(n) => JunoValue::Number(match Classified::from(n.clone()) {
            Classified::PosInt(u) => JunoNumber::PosInt(u),
            Classified::NegInt(i) => JunoNumber::NegInt(i),
            Classified::Float(_) => JunoNumber::Float(n),
        }),
        Json::String(s) => JunoValue::String(s),
        Json::Array(items) => JunoValue::Array(items.into_iter().map(convert_from_json).collect()),
        Json::Object(map) => JunoValue::Object(map.into_iter().map(|(k, v)| (k, convert_from_json(v))).collect()),
    }
}

/// The serde_json value for a juno value, variant for variant. Called only by `write_json`.
#[verifier::external_body]
fn convert_to_json(v: &JunoValue) -> Json {
    match v {
        JunoValue::Null => Json::Null,
        JunoValue::Bool(b) => Json::Bool(*b),
        JunoValue::Number(JunoNumber::PosInt(u)) => Json::from(*u),
        JunoValue::Number(JunoNumber::NegInt(i)) => Json::from(*i),
        JunoValue::Number(JunoNumber::Float(n)) => Json::Number(n.clone()),
        JunoValue::String(s) => Json::String(s.clone()),
        JunoValue::Array(items) => Json::Array(items.iter().map(convert_to_json).collect()),
        JunoValue::Object(entries) => Json::Object(entries.iter().map(|(k, v)| (k.clone(), convert_to_json(v))).collect()),
    }
}

} // verus!
