//! Building the JSON values that node outputs carry.
//!
//! A `serde_json::Value` is opaque here: what a constructor makes of its
//! parts is named, and the library states its outputs over those names.

use vstd::prelude::*;

use crate::dag::{json_kind_of, JsonKind};

verus! {

/// The JSON string whose content is the given text.
pub uninterp spec fn json_string_of(text: Seq<char>) -> serde_json::Value;

/// The JSON boolean.
pub uninterp spec fn json_bool_of(b: bool) -> serde_json::Value;

/// The JSON number holding an integer.
pub uninterp spec fn json_int_of(n: i64) -> serde_json::Value;

/// The JSON array of the given items, in order.
pub uninterp spec fn json_array_of(items: Seq<serde_json::Value>) -> serde_json::Value;

/// The JSON object built from the given entries, in order.
pub uninterp spec fn json_object_of(entries: Seq<(Seq<char>, serde_json::Value)>) -> serde_json::Value;

/// `serde_json::Value::String` holding a copy of the text.
#[verifier::external_body]
pub(crate) fn json_string(text: &str) -> (v: serde_json::Value)
    ensures
        v == json_string_of(text@),
{
    serde_json::Value::String(text.to_string())
}

/// `serde_json::Value::Bool`.
#[verifier::external_body]
pub(crate) fn json_bool(b: bool) -> (v: serde_json::Value)
    ensures
        v == json_bool_of(b),
{
    serde_json::Value::Bool(b)
}

/// `serde_json::Value::from` an `i64`: a number.
#[verifier::external_body]
pub(crate) fn json_int(n: i64) -> (v: serde_json::Value)
    ensures
        v == json_int_of(n),
{
    serde_json::Value::from(n)
}

/// `serde_json::Value::Null`.
#[verifier::external_body]
pub(crate) fn json_null() -> (v: serde_json::Value)
    ensures
        json_kind_of(v) == JsonKind::Null,
{
    serde_json::Value::Null
}

/// `serde_json::Value::Array` of the items.
#[verifier::external_body]
pub(crate) fn json_array(items: Vec<serde_json::Value>) -> (v: serde_json::Value)
    ensures
        v == json_array_of(items@),
{
    serde_json::Value::Array(items)
}

/// The views of object entries.
pub open spec fn entry_views(entries: Seq<(String, serde_json::Value)>) -> Seq<(Seq<char>, serde_json::Value)> {
    entries.map_values(|e: (String, serde_json::Value)| (e.0@, e.1))
}

/// `serde_json::Value::Object` collected from the entries.
#[verifier::external_body]
pub(crate) fn json_object(entries: Vec<(String, serde_json::Value)>) -> (v: serde_json::Value)
    ensures
        v == json_object_of(entry_views(entries@)),
{
    serde_json::Value::Object(entries.into_iter().collect())
}

/// `v` is the JSON form of an optional text: the string, or `null`.
pub open spec fn opt_string_json(v: serde_json::Value, s: Option<String>) -> bool {
    match s {
        Some(t) => v == json_string_of(t@),
        None => json_kind_of(v) == JsonKind::Null,
    }
}

/// An optional text as JSON: the string, or `null`.
pub(crate) fn json_opt_string(s: &Option<String>) -> (v: serde_json::Value)
    ensures
        opt_string_json(v, *s),
{
    match s {
        Some(t) => json_string(t.as_str()),
        None => json_null(),
    }
}

/// One object entry.
pub(crate) fn entry(key: &str, value: serde_json::Value) -> (e: (String, serde_json::Value))
    ensures
        e.0@ == key@,
        e.1 == value,
{
    (String::from_str(key), value)
}

} // verus!
