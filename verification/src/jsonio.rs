//! Trusted bridge between [`Json`] documents and their textual form.
//!
//! Parsing and rendering are done by serde_json; the library only converts
//! between serde_json's value tree and its own, variant by variant.

use vstd::prelude::*;

use crate::json::{wf_json, json_within_depth, Json, JsonData, JsonField};

verus! {

/// Declares serde_json's value tree so the conversion helpers below can
/// carry it; it is opaque here and never reaches a contract.
#[verifier::external_type_specification]
#[verifier::external_body]
pub struct ExValue(serde_json::Value);

/// The document that a text parses to, if it parses.
pub uninterp spec fn spec_parse_json(s: Seq<char>) -> Option<JsonData>;

/// The message the parser gives for a text that does not parse.
pub uninterp spec fn spec_parse_err(s: Seq<char>) -> Seq<char>;

/// The text that a document renders to.
pub uninterp spec fn spec_render_json(j: JsonData) -> Seq<char>;

/// Moves a serde_json value into the library's document tree, variant by
/// variant.  Called only from the parsing wrapper below.
#[verifier::external_body]
fn value_to_json(v: serde_json::Value) -> Json {
    match v {
        serde_json::Value::Null => Json::Null,
        serde_json::Value::Bool(b) => Json::Bool(b),
        serde_json::Value::Number(n) => Json::Num(n),
        serde_json::Value::String(s) => Json::Str(s),
        serde_json::Value::Array(a) => Json::Arr(a.into_iter().map(value_to_json).collect()),
        serde_json::Value::Object(m) => Json::Obj(
            m.into_iter().map(|(k, x)| JsonField { key: k, val: value_to_json(x) }).collect(),
        ),
    }
}

/// Moves the library's document tree into a serde_json value, variant by
/// variant.  Called only from the rendering wrapper below.
#[verifier::external_body]
fn json_to_value(j: &Json) -> serde_json::Value {
    match j {
        Json::Null => serde_json::Value::Null,
        Json::Bool(b) => serde_json::Value::Bool(*b),
        Json::Num(n) => serde_json::Value::Number(n.clone()),
        Json::Str(s) => serde_json::Value::String(s.clone()),
        Json::Arr(a) => serde_json::Value::Array(a.iter().map(json_to_value).collect()),
        Json::Obj(fs) => serde_json::Value::Object(
            fs.iter().map(|f| (f.key.clone(), json_to_value(&f.val))).collect(),
        ),
    }
}

/// Relies on serde_json::from_str: whether a text parses, to what value, and
/// with what error message all depend on the text alone; the key-preserving
/// map keeps at most one entry per key, so a parsed document has pairwise
/// distinct field names; and the parser refuses documents whose containers
/// nest more than 127 levels deep.
#[verifier::external_body]
pub fn parse_json(s: &str) -> (r: Result<Json, String>)
    ensures
        (r is Ok) == (spec_parse_json(s@) is Some),
        r matches Ok(j) ==> spec_parse_json(s@) == Some(j@) && wf_json(j@) && json_within_depth(
            j@,
            127,
        ),
        r matches Err(e) ==> e@ == spec_parse_err(s@),
{
    match serde_json::from_str::<serde_json::Value>(s) {
        Ok(v) => Ok(value_to_json(v)),
        Err(e) => Err(e.to_string()),
    }
}

/// Relies on serde_json::to_string_pretty: the rendered text depends on the
/// document alone; serializing a value tree cannot fail; and a document whose
/// field names are pairwise distinct and whose containers nest within the
/// parser's depth limit reparses to itself — field order included, since the
/// key-preserving map keeps insertion order, and number values included,
/// since the round-trip-precise float parser is enabled.
#[verifier::external_body]
pub fn render_json(j: &Json) -> (r: String)
    ensures
        r@ == spec_render_json(j@),
        wf_json(j@) && json_within_depth(j@, 127) ==> spec_parse_json(r@) == Some(j@),
{
    serde_json::to_string_pretty(&json_to_value(j)).unwrap()
}

} // verus!
