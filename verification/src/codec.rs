//! Parsing and serialization of JSON text, through `serde_json`.
//!
//! Both directions are trusted calls. What a given text parses to, and what
//! a given document serializes to, are functions of that argument alone, so
//! each result is given a name: [`parsed_doc`] and [`compact_json_of`]. The
//! contracts of the verified pipeline are stated over those names.
use vstd::prelude::*;

use crate::json::{jv, Json, Jv};

verus! {

/// `serde_json::Value` only passes through the conversion helpers below.
#[verifier::external_type_specification]
#[verifier::external_body]
pub struct ExValue(serde_json::Value);

/// Whether `text` is a valid JSON document: `serde_json`'s verdict depends
/// on the text alone.
pub uninterp spec fn json_parses(text: Seq<char>) -> bool;

/// The document that `text` parses to, when it parses: `serde_json`'s
/// result depends on the text alone.
pub uninterp spec fn parsed_doc(text: Seq<char>) -> Jv;

/// The compact serialization of the document `d`: `serde_json`'s output
/// depends on the document alone.
pub uninterp spec fn compact_json_of(d: Jv) -> Seq<char>;

/// Relies on matching `serde_json::Value`'s variants, moving each field
/// into the library's own JSON tree; numbers are carried through as they
/// are.
#[verifier::external_body]
fn value_to_json(v: &serde_json::Value) -> Json {
    match v {
        serde_json::Value::Null => Json::Null,
        serde_json::Value::Bool(b) => Json::Bool(*b),
        serde_json::Value::Number(n) => Json::Num(n.clone()),
        serde_json::Value::String(s) => Json::Str(s.clone()),
        serde_json::Value::Array(a) => Json::Arr(a.iter().map(value_to_json).collect()),
        serde_json::Value::Object(m) => Json::Obj(
            m.iter().map(|(k, val)| (k.clone(), value_to_json(val))).collect(),
        ),
    }
}

/// Relies on matching the library's JSON tree back onto
/// `serde_json::Value`, moving each field; the exact inverse of
/// `value_to_json`.
#[verifier::external_body]
fn json_to_value(j: &Json) -> serde_json::Value {
    match j {
        Json::Null => serde_json::Value::Null,
        Json::Bool(b) => serde_json::Value::Bool(*b),
        Json::Num(n) => serde_json::Value::Number(n.clone()),
        Json::Str(s) => serde_json::Value::String(s.clone()),
        Json::Arr(a) => serde_json::Value::Array(a.iter().map(json_to_value).collect()),
        Json::Obj(fields) => serde_json::Value::Object(
            fields.iter().map(|(k, val)| (k.clone(), json_to_value(val))).collect(),
        ),
    }
}

/// Relies on `serde_json::from_str`: whether the text parses and what it
/// parses to depend on the text alone, and two parses of equal texts give
/// equal documents.
#[verifier::external_body]
pub fn parse_json(s: &str) -> (r: Option<Json>)
    ensures
        r is Some <==> json_parses(s@),
        r matches Some(j) ==> jv(j) == parsed_doc(s@),
{
    match serde_json::from_str::<serde_json::Value>(s) {
        Ok(v) => Some(value_to_json(&v)),
        Err(_) => None,
    }
}

/// Relies on `serde_json::to_string`: the compact serialization is a
/// function of the document alone. Serializing a `Value` cannot fail, as
/// its map keys are strings.
#[verifier::external_body]
pub fn serialize_json(j: &Json) -> (r: String)
    ensures
        r@ == compact_json_of(jv(*j)),
{
    serde_json::to_string(&json_to_value(j)).unwrap_or(String::new())
}

} // verus!
