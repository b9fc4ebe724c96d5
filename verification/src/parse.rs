//! Parsing manifest text into a `Json` document, through serde_json.

use vstd::prelude::*;
use crate::analyzer::ManifestError;
use crate::json::Json;

verus! {

#[verifier::external_type_specification]
#[verifier::external_body]
pub struct ExValue(serde_json::Value);

/// The document that `text` denotes when it is well-formed JSON:
/// what `serde_json::from_str::<serde_json::Value>` returns on the
/// text. The result depends on the text alone.
pub uninterp spec fn parsed_doc(text: Seq<char>) -> Option<Json>;

/// The `Json` value that a `serde_json::Value` holds: each of its
/// variants as the matching `Json` variant. The result depends on the
/// value alone.
pub uninterp spec fn json_model(v: serde_json::Value) -> Json;

/// Relies on serde_json::from_str::<serde_json::Value>: it returns Ok
/// exactly on well-formed JSON text, computes its result from the text
/// alone, and does not panic.
#[verifier::external_body]
fn parse_value(text: &str) -> (r: Result<serde_json::Value, ManifestError>)
    ensures
        r is Ok <==> parsed_doc(text@) is Some,
        r matches Ok(v) ==> json_model(v) == parsed_doc(text@)->Some_0,
        r matches Err(e) ==> e == ManifestError::Parse,
{
    match serde_json::from_str::<serde_json::Value>(text) {
        Ok(v) => Ok(v),
        Err(_) => Err(ManifestError::Parse),
    }
}

/// Relies on the variants of serde_json::Value: each is carried over to
/// the matching `Json` variant, array and object members in order (an
/// object's members come deduplicated and sorted by key), a number's
/// value dropped.
#[verifier::external_body]
fn value_to_json(v: &serde_json::Value) -> (r: Json)
    ensures
        r == json_model(*v),
{
    match v {
        serde_json::Value::Null => Json::Null,
        serde_json::Value::Bool(b) => Json::Bool(*b),
        serde_json::Value::Number(_) => Json::Number,
        serde_json::Value::String(s) => Json::Str(s.clone()),
        serde_json::Value::Array(a) => Json::Array(a.iter().map(value_to_json).collect()),
        serde_json::Value::Object(m) => Json::Object(
            m.iter().map(|(k, x)| (k.clone(), value_to_json(x))).collect(),
        ),
    }
}

/// Parses manifest text. Returns the document that the text denotes
/// when it is well-formed JSON, and the parse error otherwise.
pub fn parse_manifest(text: &str) -> (r: Result<Json, ManifestError>)
    ensures
        r is Ok <==> parsed_doc(text@) is Some,
        r matches Ok(doc) ==> doc == parsed_doc(text@)->Some_0,
        r matches Err(e) ==> e == ManifestError::Parse,
{
    match parse_value(text) {
        Ok(v) => Ok(value_to_json(&v)),
        Err(e) => Err(e),
    }
}

} // verus!
