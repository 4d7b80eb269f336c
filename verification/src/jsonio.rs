//! JSON text, read and written by `serde_json`.
use vstd::prelude::*;
use crate::value::{Json, Number};
use crate::models::opt_json_view;

verus! {

#[verifier::external_type_specification]
#[verifier::external_body]
pub struct ExSerdeValue(serde_json::Value);

/// The value that `serde_json` reads from a text, if the text is JSON.
pub uninterp spec fn json_of_text(text: Seq<char>) -> Option<crate::value::JsonV>;

/// The compact text that `serde_json` writes for a value.
pub uninterp spec fn text_of_json(v: crate::value::JsonV) -> Seq<char>;

/// A `serde_json` value as a [`Json`], variant for variant.
#[verifier::external_body]
fn from_serde(v: &serde_json::Value) -> Json {
    match v {
        serde_json::Value::Null => Json::Null,
        serde_json::Value::Bool(b) => Json::Bool(*b),
        serde_json::Value::Number(_) => Json::Number(number_from_serde(v)),
        serde_json::Value::String(s) => Json::String(s.clone()),
        serde_json::Value::Array(a) => Json::Array(a.iter().map(from_serde).collect()),
        serde_json::Value::Object(o) => Json::Object(
            o.iter().map(|(k, x)| (k.clone(), from_serde(x))).collect(),
        ),
    }
}

/// A `serde_json` number value in the form it takes: unsigned, negative,
/// or floating point (kept as its text).
#[verifier::external_body]
fn number_from_serde(v: &serde_json::Value) -> Number {
    match (v.as_u64(), v.as_i64()) {
        (Some(u), _) => Number::PosInt(u),
        (None, Some(i)) => Number::NegInt(i),
        (None, None) => Number::Float(v.to_string()),
    }
}

/// A [`Json`] number as a `serde_json` value; a float text that is not a number is `null`.
#[verifier::external_body]
fn number_to_serde(n: &Number) -> serde_json::Value {
    match n {
        Number::PosInt(u) => serde_json::Value::from(*u),
        Number::NegInt(i) => serde_json::Value::from(*i),
        Number::Float(t) => t.parse::<serde_json::Number>().map(serde_json::Value::Number).unwrap_or(serde_json::Value::Null),
    }
}

/// A [`Json`] as a `serde_json` value, variant for variant.
#[verifier::external_body]
fn to_serde(v: &Json) -> serde_json::Value {
    match v {
        Json::Null => serde_json::Value::Null,
        Json::Bool(b) => serde_json::Value::Bool(*b),
        Json::Number(n) => number_to_serde(n),
        Json::String(s) => serde_json::Value::String(s.clone()),
        Json::Array(a) => serde_json::Value::Array(a.iter().map(to_serde).collect()),
        Json::Object(f) => serde_json::Value::Object(
            f.iter().map(|(k, x)| (k.clone(), to_serde(x))).collect(),
        ),
    }
}

/// `serde_json::from_str::<Value>`: the value a JSON text holds.
#[verifier::external_body]
pub(crate) fn parse_json_text(text: &str) -> (r: Option<Json>)
    ensures
        opt_json_view(r) == json_of_text(text@),
{
    serde_json::from_str::<serde_json::Value>(text).ok().map(|v| from_serde(&v))
}

/// `serde_json::to_string`: the compact JSON text of a value.
#[verifier::external_body]
pub(crate) fn json_text(v: &Json) -> (r: String)
    ensures
        r@ == text_of_json(v@),
{
    serde_json::to_string(&to_serde(v)).unwrap_or_default()
}

} // verus!
