//! The fields of a message posted as JSON.
use vstd::prelude::*;
use vstd::string::StringExecFns;
use crate::libtest::json::{JsonValue, json_get, json_document, parse_json};

verus! {

/// The type and the content of a JSON message: the string members `type`
/// and `content` of the body's object.
pub open spec fn message_fields_spec(json: Option<JsonValue>) -> Option<(Seq<char>, Seq<char>)> {
    match json {
        None => None,
        Some(v) => match (json_get(v, "type"@), json_get(v, "content"@)) {
            (Some(JsonValue::Str(t)), Some(JsonValue::Str(c))) => Some((t@, c@)),
            _ => None,
        },
    }
}

/// The type and the content of a message posted as JSON; `json` is the
/// body read as JSON, when it is JSON.
///
/// # Errors
/// `Json error` when the body is no JSON or lacks a string `type` or `content`.
pub fn json_message_fields(json: Option<&JsonValue>) -> (res: Result<(String, String), String>)
    ensures
        match message_fields_spec(match json { Some(j) => Some(*j), None => None }) {
            Some((t, c)) => (res matches Ok(p) && p.0@ == t && p.1@ == c),
            None => (res matches Err(e) && e@ == "Json error"@),
        },
{
    let v = match json {
        None => return Err(String::from_str("Json error")),
        Some(v) => v,
    };
    let t = v.get(&String::from_str("type"));
    let c = v.get(&String::from_str("content"));
    match (t, c) {
        (Some(JsonValue::Str(t)), Some(JsonValue::Str(c))) => Ok((t.clone(), c.clone())),
        _ => Err(String::from_str("Json error")),
    }
}

/// The type and the content of a message whose body is JSON text.
///
/// # Errors
/// `Json error` when the body is no JSON or lacks a string `type` or `content`.
pub fn json_message_body(body: &str) -> (res: Result<(String, String), String>)
    ensures
        match message_fields_spec(json_document(body@)) {
            Some((t, c)) => (res matches Ok(p) && p.0@ == t && p.1@ == c),
            None => (res matches Err(e) && e@ == "Json error"@),
        },
{
    let json = parse_json(body);
    match &json {
        Some(j) => json_message_fields(Some(j)),
        None => json_message_fields(None),
    }
}

} // verus!
