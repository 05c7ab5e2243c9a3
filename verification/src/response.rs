//! Decoding of the database's textual answer into a `JsonValue`.
//!
//! The parsing itself is serde_json's; everything after the parse is
//! verified against the name `parsed_document` given to its result.

use vstd::prelude::*;

use crate::error::DgraphQueryError;
use crate::json::{JsonValue, JsonView};

verus! {

#[verifier::external_type_specification]
#[verifier::external_body]
pub struct ExSerdeValue(serde_json::Value);

#[verifier::external_type_specification]
#[verifier::external_body]
pub struct ExSerdeError(serde_json::Error);

/// What a text parses to as JSON, if anything. Named only: the answer
/// depends on the text's characters alone.
pub uninterp spec fn parsed_document(s: Seq<char>) -> Option<JsonView>;

/// What a parsed serde_json value holds, as this crate's JSON model.
pub uninterp spec fn serde_value_model(v: serde_json::Value) -> JsonView;

/// Relies on serde_json::from_str::<Value>: whether and what a text parses
/// to depends on its characters alone.
#[verifier::external_body]
fn parse_serde_value(s: &str) -> (r: Result<serde_json::Value, serde_json::Error>)
    ensures
        match r {
            Ok(v) => parsed_document(s@) == Some(serde_value_model(v)),
            Err(_) => parsed_document(s@) is None,
        },
{
    serde_json::from_str::<serde_json::Value>(s)
}

/// Relies on serde_json::Value's variants, one arm each, and on
/// serde_json::Number::as_i64, to carry a parsed value across.
#[verifier::external_body]
fn from_serde_value(v: &serde_json::Value) -> (r: JsonValue)
    ensures
        r@ == serde_value_model(*v),
{
    match v {
        serde_json::Value::Null => JsonValue::Null,
        serde_json::Value::Bool(b) => JsonValue::Bool(*b),
        serde_json::Value::Number(n) => n.as_i64().map_or(JsonValue::OtherNumber, JsonValue::Int),
        serde_json::Value::String(s) => JsonValue::Str(s.clone()),
        serde_json::Value::Array(a) => JsonValue::Arr(a.iter().map(from_serde_value).collect()),
        serde_json::Value::Object(o) => JsonValue::Obj(
            o.iter().map(|(k, x)| (k.clone(), from_serde_value(x))).collect(),
        ),
    }
}

/// Parses the database's textual answer, or reports it as invalid JSON.
pub fn parse_json_text(s: &str) -> (r: Result<JsonValue, DgraphQueryError>)
    ensures
        match r {
            Ok(j) => parsed_document(s@) == Some(j@),
            Err(e) => parsed_document(s@) is None && e == DgraphQueryError::InvalidJson,
        },
{
    match parse_serde_value(s) {
        Ok(v) => Ok(from_serde_value(&v)),
        Err(_) => Err(DgraphQueryError::InvalidJson),
    }
}

} // verus!
