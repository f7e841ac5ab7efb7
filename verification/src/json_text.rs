//! Reading JSON text: `serde_json` parses it, and the parsed value is taken
//! into the library's [`Json`] one for one.

use vstd::prelude::*;

use crate::json::{Json, JsonNumber};

verus! {

/// `serde_json::Value`, carried through as an opaque value.
#[verifier::external_type_specification]
#[verifier::external_body]
pub struct ExJsonValue(serde_json::Value);

/// What `serde_json::from_str::<Value>` makes of a text, taken into the
/// library's value: `None` when the text is not JSON.
pub uninterp spec fn json_parsed(text: Seq<char>) -> Option<Json>;

/// A parsed `serde_json::Value` as the library's value: the variant with
/// its fields, numbers with their `as_u64`, `as_i64` and printed text,
/// containers with their items (in the parser's order) and compact text.
#[verifier::external_body]
fn value_to_json(v: &serde_json::Value) -> Json {
    match v {
        serde_json::Value::Null => Json::Null,
        serde_json::Value::Bool(b) => Json::Bool(*b),
        serde_json::Value::Number(n) => Json::Number(JsonNumber { as_u64: n.as_u64(), as_i64: n.as_i64(), text: n.to_string() }),
        serde_json::Value::String(s) => Json::Str(s.clone()),
        serde_json::Value::Array(a) => Json::Array { items: a.iter().map(value_to_json).collect(), text: v.to_string() },
        serde_json::Value::Object(m) => Json::Object {
            entries: m.iter().map(|(k, x)| (k.clone(), value_to_json(x))).collect(),
            text: v.to_string(),
        },
    }
}

/// `serde_json::from_str::<serde_json::Value>` on the text, the value taken
/// into the library's [`Json`]. The parse depends on the text alone, so its
/// result is named [`json_parsed`]; on failure the parser's message is
/// returned, whose wording is not stated.
#[verifier::external_body]
pub(crate) fn parse_json_text(text: &str) -> (r: Result<Json, String>)
    ensures
        r is Ok <==> json_parsed(text@) is Some,
        r matches Ok(j) ==> json_parsed(text@) == Some(j),
{
    match serde_json::from_str::<serde_json::Value>(text) {
        Ok(v) => Ok(value_to_json(&v)),
        Err(e) => Err(e.to_string()),
    }
}

} // verus!
