//! JSON documents read through `serde_json`, handed on as plain values.
use vstd::prelude::*;

verus! {

/// A JSON value as `serde_json::Value` holds it. A number keeps only its value
/// as a `u64` (`Number::as_u64`): `None` for negative and fractional numbers.
/// An object keeps its members in `serde_json::Map` order, one per key.
#[derive(Debug)]
pub enum JsonValue {
    Null,
    Boolean(bool),
    Number(Option<u64>),
    Text(String),
    Array(Vec<JsonValue>),
    Object(Vec<(String, JsonValue)>),
}

/// The value of the JSON text `text`, or `None` when it is not JSON, as
/// `serde_json::from_str::<serde_json::Value>` reads it.
pub uninterp spec fn json_document(text: Seq<char>) -> Option<JsonValue>;

/// Parses `text` with `serde_json::from_str` into a `serde_json::Value` and
/// copies it into plain values, each array element and member value by writing
/// it back as JSON (`Value`'s `Display`) and parsing that again. The contract
/// claims only that the result is a fixed function of `text`, named
/// `json_document`: what JSON `serde_json` accepts is not stated.
#[verifier::external_body]
pub fn parse_json_value(text: &str) -> (r: Option<JsonValue>)
    ensures
        r == json_document(text@),
{
    let value: serde_json::Value = serde_json::from_str(text).ok()?;
    Some(match value {
        serde_json::Value::Null => JsonValue::Null,
        serde_json::Value::Bool(flag) => JsonValue::Boolean(flag),
        serde_json::Value::Number(number) => JsonValue::Number(number.as_u64()),
        serde_json::Value::String(text) => JsonValue::Text(text),
        serde_json::Value::Array(items) => JsonValue::Array(items.iter().map(|item| parse_json_value(&item.to_string())).collect::<Option<_>>()?),
        serde_json::Value::Object(members) => JsonValue::Object(members.iter().map(|(key, item)| Some((key.clone(), parse_json_value(&item.to_string())?))).collect::<Option<_>>()?),
    })
}

} // verus!
