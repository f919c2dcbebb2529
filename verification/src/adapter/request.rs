//! The neutral request a harness payload becomes.
//!
//! A harness writes one JSON object on stdin (a blank payload counts as the
//! empty object). An adapter parses the text with `serde_json` and decides
//! what the payload means.

use vstd::prelude::*;

use super::HookEvent;
use crate::json::{member, parsed_view, JsonValue};
use crate::text::trim;

verus! {

/// A harness-neutral lifecycle request: the event, the tool a tool event
/// names and its input (passed through as it was), the submitted prompt and
/// the session's id, working directory, transcript and start source.
#[derive(Debug)]
pub struct HookRequest {
    pub event: HookEvent,
    pub tool_name: Option<String>,
    pub tool_input: Option<JsonValue>,
    pub prompt: Option<String>,
    pub session_id: Option<String>,
    pub cwd: Option<String>,
    pub transcript_path: Option<String>,
    pub source: Option<String>,
}

/// The text of an optional string.
pub open spec fn opt_text(o: Option<String>) -> Option<Seq<char>> {
    match o {
        Some(s) => Some(s@),
        None => None,
    }
}

/// The first of two optional values that is present.
pub open spec fn either(a: Option<Seq<char>>, b: Option<Seq<char>>) -> Option<Seq<char>> {
    if a is Some {
        a
    } else {
        b
    }
}

/// The member `key` of an object when it is a string.
pub open spec fn string_member(o: Seq<(String, JsonValue)>, key: Seq<char>) -> Option<Seq<char>> {
    match member(o, key) {
        Some(JsonValue::String(s)) => Some(s@),
        _ => None,
    }
}

/// The object a payload holds: the empty object for blank text; otherwise
/// the parsed value, which must be an object.
pub open spec fn payload_object(stdin: Seq<char>, parsed: Result<JsonValue, Seq<char>>) -> Result<
    Seq<(String, JsonValue)>,
    Seq<char>,
> {
    if trim(stdin).len() == 0 {
        Ok(seq![])
    } else {
        match parsed {
            Err(e) => Err("parse stdin ("@ + e + ")"@),
            Ok(JsonValue::Object(o)) => Ok(o@),
            Ok(_) => Err("parse stdin (payload is not a JSON object)"@),
        }
    }
}

/// Whether a payload text is blank.
pub fn is_blank(stdin_json: &str) -> (r: bool)
    ensures
        r == (trim(stdin_json@).len() == 0),
{
    let c = crate::text::chars_of(stdin_json);
    crate::text::trim_exec(c.as_slice()).len() == 0
}

/// The object a payload holds, or the error that refuses it.
pub fn payload_object_exec(stdin_json: &str, parsed: Result<JsonValue, String>) -> (r: Result<
    Vec<(String, JsonValue)>,
    String,
>)
    ensures
        match (r, payload_object(stdin_json@, parsed_view(parsed))) {
            (Ok(o), Ok(p)) => o@ == p,
            (Err(e), Err(p)) => e@ == p,
            _ => false,
        },
{
    if is_blank(stdin_json) {
        let none: Vec<(String, JsonValue)> = Vec::new();
        assert(none@ =~= seq![]);
        return Ok(none);
    }
    match parsed {
        Err(e) => Err(crate::text::concat3("parse stdin (", e.as_str(), ")")),
        Ok(JsonValue::Object(o)) => Ok(o),
        Ok(_) => Err(String::from_str("parse stdin (payload is not a JSON object)")),
    }
}

/// The member `key` when it is a string.
pub fn string_field(o: &Vec<(String, JsonValue)>, key: &str) -> (r: Option<String>)
    ensures
        opt_text(r) == string_member(o@, key@),
{
    match crate::json::get(o, key) {
        Some(JsonValue::String(s)) => Some(s.clone()),
        _ => None,
    }
}

/// The first string among two members.
pub fn either_field(o: &Vec<(String, JsonValue)>, first: &str, second: &str) -> (r: Option<String>)
    ensures
        opt_text(r) == either(string_member(o@, first@), string_member(o@, second@)),
{
    match string_field(o, first) {
        Some(s) => Some(s),
        None => string_field(o, second),
    }
}

/// Moves the member `key` out of an object, leaving the others.
pub fn take_member(o: &mut Vec<(String, JsonValue)>, key: &str) -> (r: Option<JsonValue>)
    ensures
        r == member(old(o)@, key@),
{
    let mut i: usize = 0;
    assert(o@.skip(0) =~= o@);
    while i < o.len()
        invariant
            i <= o.len(),
            o@ == old(o)@,
            member(o@, key@) == member(o@.skip(i as int), key@),
        decreases o.len() - i,
    {
        assert(o@.skip(i as int).drop_first() =~= o@.skip(i + 1));
        assert(o@.skip(i as int)[0] == o@[i as int]);
        if crate::text::same_text(o[i].0.as_str(), key) {
            let entry = o.remove(i);
            return Some(entry.1);
        }
        i += 1;
    }
    None
}

} // verus!
