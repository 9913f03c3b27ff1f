//! The one place where this crate calls into serde_json.
//!
//! JSON text is parsed by `serde_json` and the resulting value is converted,
//! variant by variant, into the crate's own [`JsonValue`](crate::json::JsonValue).
//! What the parser accepts and what value a given text denotes is named by
//! the uninterpreted function [`parsed_json`]; everything downstream of the
//! parse is verified against that name.
use vstd::prelude::*;
use crate::json::{JsonSpec, JsonValue};

verus! {

/// `serde_json::Value`, declared so that it may appear in signatures here.
#[verifier::external_type_specification]
#[verifier::external_body]
pub struct ExValue(serde_json::Value);

/// The document denoted by `bytes` under serde_json's grammar: `None` where
/// the text is not valid JSON, otherwise the parsed value with numbers
/// rendered as their shortest decimal text. The parse depends on the bytes
/// alone.
pub uninterp spec fn parsed_json(bytes: Seq<u8>) -> Option<JsonSpec>;

/// Relies on the public variants of `serde_json::Value`, on
/// `serde_json::Number`'s `Display` and on `String::into_bytes`: each
/// variant is carried over one for one, numbers as their decimal text.
/// Called only from `parse_json` below, whose contract covers the whole
/// parse-and-convert step.
#[verifier::external_body]
fn from_serde(v: serde_json::Value) -> JsonValue {
    match v {
        serde_json::Value::Null => JsonValue::Null,
        serde_json::Value::Bool(b) => JsonValue::Bool(b),
        serde_json::Value::Number(n) => JsonValue::Num(n.to_string().into_bytes()),
        serde_json::Value::String(s) => JsonValue::Str(s.into_bytes()),
        serde_json::Value::Array(a) => JsonValue::Arr(a.into_iter().map(from_serde).collect()),
        serde_json::Value::Object(o) => JsonValue::Obj(
            o.into_iter().map(|(k, val)| (k.into_bytes(), from_serde(val))).collect(),
        ),
    }
}

/// Relies on `serde_json::from_slice::<serde_json::Value>`: it returns `Ok`
/// exactly on valid JSON text, and the value it returns is a function of the
/// bytes alone. Success and the parsed document are both named by
/// [`parsed_json`].
#[verifier::external_body]
pub fn parse_json(bytes: &[u8]) -> (r: Option<JsonValue>)
    ensures
        r is Some <==> parsed_json(bytes@) is Some,
        r matches Some(j) ==> parsed_json(bytes@) == Some(j@),
{
    match serde_json::from_slice::<serde_json::Value>(bytes) {
        Ok(v) => Some(from_serde(v)),
        Err(_) => None,
    }
}

} // verus!
