//! A parsed JSON document, as configuration logic reads it.

use vstd::prelude::*;

verus! {

/// A JSON value. A number carries its value when it is a non-negative
/// integer that fits in `u64` (what configuration logic reads of numbers),
/// and `None` otherwise, beside the number as the parser writes it back, so
/// that negative and fractional numbers pass through unchanged. An object's
/// members keep the parser's order, in which every name occurs once.
#[derive(Debug)]
pub enum JsonValue {
    Null,
    Bool(bool),
    Number(Option<u64>, String),
    String(String),
    Array(Vec<JsonValue>),
    Object(Vec<(String, JsonValue)>),
}

/// The value of the first member named `key`.
pub open spec fn member(entries: Seq<(String, JsonValue)>, key: Seq<char>) -> Option<JsonValue>
    decreases entries.len(),
{
    if entries.len() == 0 {
        None
    } else if entries[0].0@ == key {
        Some(entries[0].1)
    } else {
        member(entries.drop_first(), key)
    }
}

/// Looks a member up by name.
pub fn get<'a>(entries: &'a Vec<(String, JsonValue)>, key: &str) -> (r: Option<&'a JsonValue>)
    ensures
        match r {
            Some(v) => member(entries@, key@) == Some(*v),
            None => member(entries@, key@) is None,
        },
{
    let mut i: usize = 0;
    assert(entries@.skip(0) =~= entries@);
    while i < entries.len()
        invariant
            i <= entries.len(),
            member(entries@, key@) == member(entries@.skip(i as int), key@),
        decreases entries.len() - i,
    {
        assert(entries@.skip(i as int).drop_first() =~= entries@.skip(i + 1));
        assert(entries@.skip(i as int)[0] == entries@[i as int]);
        if crate::text::same_text(entries[i].0.as_str(), key) {
            return Some(&entries[i].1);
        }
        i += 1;
    }
    None
}

/// What `serde_json::from_str` makes of a text, read as a `serde_json::Value`
/// and taken variant for variant into a `JsonValue`: the value, or the text
/// of the parser's error.
pub uninterp spec fn json_parsed(text: Seq<char>) -> Result<JsonValue, Seq<char>>;

/// A parse result with its error taken as text.
pub open spec fn parsed_view(p: Result<JsonValue, String>) -> Result<JsonValue, Seq<char>> {
    match p {
        Ok(v) => Ok(v),
        Err(e) => Err(e@),
    }
}

#[verifier::external_type_specification]
#[verifier::external_body]
pub struct ExJsonDocument(serde_json::Value);

/// Takes a `serde_json::Value` into a `JsonValue`, variant for variant; a
/// number keeps `as_u64` and its `to_string` text.
#[verifier::external_body]
fn json_model(v: &serde_json::Value) -> JsonValue {
    match v {
        serde_json::Value::Null => JsonValue::Null,
        serde_json::Value::Bool(b) => JsonValue::Bool(*b),
        serde_json::Value::Number(n) => JsonValue::Number(n.as_u64(), n.to_string()),
        serde_json::Value::String(s) => JsonValue::String(s.clone()),
        serde_json::Value::Array(a) => JsonValue::Array(a.iter().map(json_model).collect()),
        serde_json::Value::Object(o) => JsonValue::Object(
            o.iter().map(|(k, v)| (k.clone(), json_model(v))).collect(),
        ),
    }
}

/// Parses a text with `serde_json::from_str` into a `serde_json::Value`. The
/// contract claims only that the outcome is `json_parsed` of the text: the
/// value, or the `Display` text of the `serde_json::Error`.
#[verifier::external_body]
pub(crate) fn parse_json(text: &str) -> (r: Result<JsonValue, String>)
    ensures
        parsed_view(r) == json_parsed(text@),
{
    match serde_json::from_str::<serde_json::Value>(text) {
        Ok(v) => Ok(json_model(&v)),
        Err(e) => Err(e.to_string()),
    }
}

} // verus!
