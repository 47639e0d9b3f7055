//! The JSON of a response, as far as a test reads it: strings, and the
//! arrays and objects that hold them.
use vstd::prelude::*;

verus! {

/// A JSON value.
pub enum JsonValue {
    Str(String),
    Array(Vec<JsonValue>),
    /// An object's members, each key once.
    Object(Vec<(String, JsonValue)>),
    /// A number, a boolean or null: nothing here reads those.
    Other,
}

/// The value of the first member at or after position `i` whose key is `key`.
pub open spec fn member_from(members: Seq<(String, JsonValue)>, key: Seq<char>, i: nat) -> Option<JsonValue>
    decreases members.len() - i,
{
    if i >= members.len() {
        None
    } else if members[i as int].0@ == key {
        Some(members[i as int].1)
    } else {
        member_from(members, key, i + 1)
    }
}

/// The member `key` of an object; nothing for any other value.
pub open spec fn json_get(v: JsonValue, key: Seq<char>) -> Option<JsonValue> {
    match v {
        JsonValue::Object(members) => member_from(members@, key, 0),
        _ => None,
    }
}

/// The value reached from `v` by following the keys of `path` in turn.
pub open spec fn json_walk(v: JsonValue, path: Seq<Seq<char>>) -> Option<JsonValue>
    decreases path.len(),
{
    if path.len() == 0 {
        Some(v)
    } else {
        match json_walk(v, path.drop_last()) {
            None => None,
            Some(w) => json_get(w, path.last()),
        }
    }
}

impl JsonValue {
    /// The member `key`, when this is an object that has one.
    pub fn get(&self, key: &String) -> (res: Option<&JsonValue>)
        ensures
            res is Some <==> json_get(*self, key@) is Some,
            res matches Some(r) ==> json_get(*self, key@) == Some(*r),
    {
        match self {
            JsonValue::Object(members) => {
                let mut i: usize = 0;
                while i < members.len()
                    invariant
                        i <= members@.len(),
                        json_get(*self, key@) == member_from(members@, key@, 0),
                        member_from(members@, key@, 0) == member_from(members@, key@, i as nat),
                    decreases members@.len() - i,
                {
                    if members[i].0 == *key {
                        assert(member_from(members@, key@, i as nat) == Some(members@[i as int].1));
                        return Some(&members[i].1);
                    }
                    i = i + 1;
                }
                None
            },
            _ => None,
        }
    }
}

/// The value that `serde_json` reads from a text, as the library holds it;
/// `None` when the text is no JSON.
pub uninterp spec fn json_document(text: Seq<char>) -> Option<JsonValue>;

/// `serde_json::from_str::<serde_json::Value>`: the value a text holds,
/// converted variant by variant. Which value a text holds is named, not
/// spelled out.
#[verifier::external_body]
pub(crate) fn parse_json(text: &str) -> (res: Option<JsonValue>)
    ensures
        res == json_document(text@),
{
    match serde_json::from_str::<serde_json::Value>(text) {
        Ok(v) => Some(json_value_of(v)),
        Err(_) => None,
    }
}

/// A value as `serde_json` reads it; only converted here.
#[verifier::external_type_specification]
#[verifier::external_body]
pub struct ExJsonValue(serde_json::Value);

/// The conversion of what [`parse_json`] reads: each `serde_json::Value`
/// variant to the library's, one for one (numbers, booleans and null to `Other`).
#[verifier::external_body]
fn json_value_of(v: serde_json::Value) -> JsonValue {
    match v {
        serde_json::Value::String(s) => JsonValue::Str(s),
        serde_json::Value::Array(a) => JsonValue::Array(a.into_iter().map(json_value_of).collect()),
        serde_json::Value::Object(o) => JsonValue::Object(o.into_iter().map(|(k, v)| (k, json_value_of(v))).collect()),
        _ => JsonValue::Other,
    }
}

} // verus!
