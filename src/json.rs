//! Reading the few members of a JSON document that the library cares about.
//!
//! Parsing and member lookup are done by `serde_json`; what comes back is
//! named over the source text, so that contracts can speak of it.
use vstd::prelude::*;

verus! {

#[verifier::external_type_specification]
#[verifier::external_body]
pub struct ExJsonValue(serde_json::Value);

// Whether `serde_json` accepts the text as one JSON value.
pub uninterp spec fn json_accepts(text: Seq<char>) -> bool;

// The string held under `key` in the top-level object of the text, if there is one.
pub uninterp spec fn json_str_member(text: Seq<char>, key: Seq<char>) -> Option<Seq<char>>;

// The boolean held under `key` in the top-level object of the text, if there is one.
pub uninterp spec fn json_bool_member(text: Seq<char>, key: Seq<char>) -> Option<bool>;

// The array held under `key` in the top-level object of the text, each item read
// as an unsigned integer where it is one.
pub uninterp spec fn json_u64_items(text: Seq<char>, key: Seq<char>) -> Option<Seq<Option<u64>>>;

// The array held under `key` in the top-level object of the text, each item read
// for the string that it holds under `inner`, where it holds one.
pub uninterp spec fn json_item_str_members(
    text: Seq<char>,
    key: Seq<char>,
    inner: Seq<char>,
) -> Option<Seq<Option<Seq<char>>>>;

/// The mathematical value of an optional string.
pub open spec fn opt_str_view(x: Option<String>) -> Option<Seq<char>> {
    match x {
        Some(s) => Some(s@),
        None => None,
    }
}

/// A parsed JSON document together with the text that it was parsed from.
///
/// Only `parse_json` builds one, so the value always is the parse of the text.
pub struct JsonDoc {
    text: String,
    value: serde_json::Value,
}

impl View for JsonDoc {
    type V = Seq<char>;

    closed spec fn view(&self) -> Seq<char> {
        self.text@
    }
}

/// Relies on `serde_json::from_str::<Value>`: it either accepts the text or fails,
/// and which of the two depends on the text alone.
#[verifier::external_body]
pub fn parse_json(text: &str) -> (r: Option<JsonDoc>)
    ensures
        r is Some <==> json_accepts(text@),
        r matches Some(d) ==> d@ == text@,
{
    match serde_json::from_str::<serde_json::Value>(text) {
        Ok(value) => Some(JsonDoc { text: text.to_string(), value }),
        Err(_) => None,
    }
}

/// Relies on `serde_json::Value::get` with a string key: the member of an object,
/// kept only where it is a JSON string.
#[verifier::external_body]
pub fn str_member(doc: &JsonDoc, key: &str) -> (r: Option<String>)
    ensures
        r matches Some(s) ==> json_str_member(doc@, key@) == Some(s@),
        r is None ==> json_str_member(doc@, key@) is None,
{
    match doc.value.get(key) {
        Some(serde_json::Value::String(s)) => Some(s.clone()),
        _ => None,
    }
}

/// Relies on `serde_json::Value::get` with a string key: the member of an object,
/// kept only where it is a JSON boolean.
#[verifier::external_body]
pub fn bool_member(doc: &JsonDoc, key: &str) -> (r: Option<bool>)
    ensures
        r == json_bool_member(doc@, key@),
{
    match doc.value.get(key) {
        Some(serde_json::Value::Bool(b)) => Some(*b),
        _ => None,
    }
}

/// Relies on `serde_json::Value::get` with a string key, then on
/// `serde_json::Value::as_u64` for each item of the array found there.
#[verifier::external_body]
pub fn u64_items(doc: &JsonDoc, key: &str) -> (r: Option<Vec<Option<u64>>>)
    ensures
        r matches Some(v) ==> json_u64_items(doc@, key@) == Some(v@),
        r is None ==> json_u64_items(doc@, key@) is None,
{
    match doc.value.get(key) {
        Some(serde_json::Value::Array(items)) => Some(items.iter().map(|x| x.as_u64()).collect()),
        _ => None,
    }
}

/// Relies on `serde_json::Value::get`: the array under `key`, and for each of its
/// items the member under `inner`, kept only where it is a JSON string.
#[verifier::external_body]
pub fn item_str_members(doc: &JsonDoc, key: &str, inner: &str) -> (r: Option<Vec<Option<String>>>)
    ensures
        r matches Some(v) ==> json_item_str_members(doc@, key@, inner@) == Some(
            v@.map_values(|x: Option<String>| opt_str_view(x)),
        ),
        r is None ==> json_item_str_members(doc@, key@, inner@) is None,
{
    match doc.value.get(key) {
        Some(serde_json::Value::Array(items)) => Some(
            items.iter().map(|m| match m.get(inner) {
                Some(serde_json::Value::String(s)) => Some(s.clone()),
                _ => None,
            }).collect(),
        ),
        _ => None,
    }
}

} // verus!
