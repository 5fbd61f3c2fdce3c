//! JSON values as read by serde_json, and the few lookups made on them.
use vstd::prelude::*;
use serde_json::Value;

verus! {

#[verifier::external_type_specification]
#[verifier::external_body]
pub struct ExValue(Value);

#[verifier::external_type_specification]
#[verifier::external_body]
pub struct ExJsonError(serde_json::Error);

/// A JSON value, holding what the document logic reads (numbers are not read).
pub enum Json {
    Null,
    Bool(bool),
    Number,
    Str(Seq<char>),
    Array(Seq<Json>),
    Object(Map<Seq<char>, Json>),
}

/// The JSON value that a serde_json `Value` holds.
pub uninterp spec fn json_value(v: Value) -> Json;

/// The JSON value that serde_json reads from a text, if the text is JSON.
pub uninterp spec fn json_of_text(s: Seq<char>) -> Option<Json>;

/// The member `key` of an object; `None` for a missing member or a non-object.
pub open spec fn member(j: Json, key: Seq<char>) -> Option<Json> {
    match j {
        Json::Object(m) => if m.dom().contains(key) {
            Some(m[key])
        } else {
            None
        },
        _ => None,
    }
}

/// The member `key` of an optional value.
pub open spec fn member_of(j: Option<Json>, key: Seq<char>) -> Option<Json> {
    match j {
        Some(x) => member(x, key),
        None => None,
    }
}

/// The text of a string value, or the empty text for anything else.
pub open spec fn str_or_empty(j: Option<Json>) -> Seq<char> {
    match j {
        Some(Json::Str(s)) => s,
        _ => seq![],
    }
}

/// The items of an array value, or no items for anything else.
pub open spec fn items_or_empty(j: Option<Json>) -> Seq<Json> {
    match j {
        Some(Json::Array(items)) => items,
        _ => seq![],
    }
}

/// The JSON values held by a sequence of serde_json values.
pub open spec fn json_values(vs: Seq<Value>) -> Seq<Json> {
    vs.map_values(|v: Value| json_value(v))
}

/// Parses a JSON text with `serde_json::from_str::<Value>`. Trusted: the
/// outcome is [`json_of_text`] of the text, a value when it is `Some`.
#[verifier::external_body]
pub(crate) fn parse_json(s: &str) -> (r: Result<Value, serde_json::Error>)
    ensures
        match r {
            Ok(v) => json_of_text(s@) == Some(json_value(v)),
            Err(_) => json_of_text(s@) is None,
        },
{
    serde_json::from_str(s)
}

/// serde_json's message for a parse error (its `Display`). Nothing is stated
/// of the message.
#[verifier::external_body]
pub(crate) fn json_error_text(e: &serde_json::Error) -> String {
    e.to_string()
}

/// A member of an object, through `Value::get` with a string key. Trusted:
/// the result is the member named `key`, and there is none for a missing
/// member or a value that is not an object.
#[verifier::external_body]
pub(crate) fn json_get<'a>(v: &'a Value, key: &str) -> (r: Option<&'a Value>)
    ensures
        match r {
            Some(x) => member(json_value(*v), key@) == Some(json_value(*x)),
            None => member(json_value(*v), key@) is None,
        },
{
    v.get(key)
}

/// The items of an array, through `Value::as_array`. Trusted: the items of an
/// array value, in order, and none for anything else.
#[verifier::external_body]
pub(crate) fn json_array<'a>(v: &'a Value) -> (r: Option<&'a Vec<Value>>)
    ensures
        match r {
            Some(items) => json_value(*v) == Json::Array(json_values(items@)),
            None => !(json_value(*v) is Array),
        },
{
    v.as_array()
}

/// The text of a string, through `Value::as_str`. Trusted: the text of a
/// string value, and none for anything else.
#[verifier::external_body]
pub(crate) fn json_str<'a>(v: &'a Value) -> (r: Option<&'a str>)
    ensures
        match r {
            Some(t) => json_value(*v) == Json::Str(t@),
            None => !(json_value(*v) is Str),
        },
{
    v.as_str()
}

} // verus!
