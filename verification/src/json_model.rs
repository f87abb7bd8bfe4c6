//! JSON documents as this library reads them: serde_json's parser and value
//! accessors, stated over a mathematical model of a JSON value.
use vstd::prelude::*;

verus! {

#[verifier::external_type_specification]
#[verifier::external_body]
pub struct ExJsonValue(serde_json::Value);

#[verifier::external_type_specification]
#[verifier::external_body]
pub struct ExJsonError(serde_json::Error);

/// A JSON value. A number is held only by its value where it is an unsigned
/// integer that fits in `u64` (what `Value::as_u64` gives); other numbers are
/// `Number(None)`. An object maps each key to the value it holds (serde_json keeps the last
/// of repeated keys).
pub enum JsonModel {
    Null,
    Bool(bool),
    Number(Option<u64>),
    Str(Seq<char>),
    Array(Seq<JsonModel>),
    Object(Map<Seq<char>, JsonModel>),
}

/// The value that serde_json parses `text` into; `None` where serde_json
/// refuses it: text that is not one valid JSON document, and also valid JSON
/// nested deeper than serde_json's recursion limit.
pub uninterp spec fn json_parse(text: Seq<char>) -> Option<JsonModel>;

/// What a `serde_json::Value` holds.
pub uninterp spec fn json_value(v: serde_json::Value) -> JsonModel;

/// The values of an array, each by what it holds.
pub open spec fn json_values(items: Seq<serde_json::Value>) -> Seq<JsonModel> {
    items.map_values(|x: serde_json::Value| json_value(x))
}

/// `serde_json::from_str::<Value>`: the parsed document, or an error exactly
/// where serde_json refuses the text (not valid JSON, or nested deeper than
/// its recursion limit).
#[verifier::external_body]
pub(crate) fn parse_json_text(text: &str) -> (res: Result<serde_json::Value, serde_json::Error>)
    ensures
        res is Ok <==> json_parse(text@) is Some,
        res matches Ok(v) ==> json_parse(text@) == Some(json_value(v)),
{
    serde_json::from_str::<serde_json::Value>(text)
}

/// `Value::get` with a string key: the value an object holds at `key`;
/// `None` for a missing key or a value that is not an object.
#[verifier::external_body]
pub(crate) fn json_get<'a>(v: &'a serde_json::Value, key: &str) -> (res: Option<&'a serde_json::Value>)
    ensures
        match json_value(*v) {
            JsonModel::Object(m) => {
                &&& res is Some <==> m.contains_key(key@)
                &&& res matches Some(x) ==> json_value(*x) == m[key@]
            },
            _ => res is None,
        },
{
    v.get(key)
}

/// `Value::as_str`: the text of a string value, `None` for any other value.
#[verifier::external_body]
pub(crate) fn json_as_str(v: &serde_json::Value) -> (res: Option<&str>)
    ensures
        match json_value(*v) {
            JsonModel::Str(s) => res matches Some(r) && r@ == s,
            _ => res is None,
        },
{
    v.as_str()
}

/// `Value::as_array`: the items of an array value, `None` for any other value.
#[verifier::external_body]
pub(crate) fn json_as_array(v: &serde_json::Value) -> (res: Option<&Vec<serde_json::Value>>)
    ensures
        match json_value(*v) {
            JsonModel::Array(items) => res matches Some(a) && json_values(a@) == items,
            _ => res is None,
        },
{
    v.as_array()
}

/// `Value::as_u64`: the value of an unsigned integer that fits in `u64`,
/// `None` for any other value.
#[verifier::external_body]
pub(crate) fn json_as_u64(v: &serde_json::Value) -> (res: Option<u64>)
    ensures
        match json_value(*v) {
            JsonModel::Number(n) => res == n,
            _ => res is None,
        },
{
    v.as_u64()
}

/// The unsigned integer at `key` of an object, where there is one.
pub open spec fn json_u64_field(j: JsonModel, key: Seq<char>) -> Option<u64> {
    match j {
        JsonModel::Object(m) => if m.contains_key(key) {
            match m[key] {
                JsonModel::Number(n) => n,
                _ => None,
            }
        } else {
            None
        },
        _ => None,
    }
}

/// `v.get(key).and_then(Value::as_u64)`.
pub fn json_u64_at(v: &serde_json::Value, key: &str) -> (res: Option<u64>)
    ensures
        res == json_u64_field(json_value(*v), key@),
{
    match json_get(v, key) {
        Some(x) => json_as_u64(x),
        None => None,
    }
}

/// The string at `key` of an object, where there is one.
pub open spec fn json_str_field(j: JsonModel, key: Seq<char>) -> Option<Seq<char>> {
    match j {
        JsonModel::Object(m) => if m.contains_key(key) {
            match m[key] {
                JsonModel::Str(s) => Some(s),
                _ => None,
            }
        } else {
            None
        },
        _ => None,
    }
}

/// The array at `key` of an object, where there is one.
pub open spec fn json_array_field(j: JsonModel, key: Seq<char>) -> Option<Seq<JsonModel>> {
    match j {
        JsonModel::Object(m) => if m.contains_key(key) {
            match m[key] {
                JsonModel::Array(items) => Some(items),
                _ => None,
            }
        } else {
            None
        },
        _ => None,
    }
}

/// `v.get(key).and_then(Value::as_str)`.
pub fn json_str_at<'a>(v: &'a serde_json::Value, key: &str) -> (res: Option<&'a str>)
    ensures
        match res {
            Some(r) => json_str_field(json_value(*v), key@) == Some(r@),
            None => json_str_field(json_value(*v), key@) is None,
        },
{
    match json_get(v, key) {
        Some(x) => json_as_str(x),
        None => None,
    }
}

/// `v.get(key).and_then(Value::as_array)`.
pub fn json_array_at<'a>(v: &'a serde_json::Value, key: &str) -> (res: Option<&'a Vec<serde_json::Value>>)
    ensures
        match res {
            Some(a) => json_array_field(json_value(*v), key@) == Some(json_values(a@)),
            None => json_array_field(json_value(*v), key@) is None,
        },
{
    match json_get(v, key) {
        Some(x) => json_as_array(x),
        None => None,
    }
}

} // verus!
