//! JSON documents as the provider sends them.
//!
//! A [`serde_json::Value`] is opaque to the verifier. Its content is given a
//! mathematical form here, [`Json`], and each accessor of `serde_json` that
//! the library calls stands behind a small function whose contract says,
//! over that form, what the accessor returns. These contracts are not
//! proved: they restate what `serde_json` documents of its accessors.

use vstd::prelude::*;

verus! {

/// `serde_json::Value`, declared so that it can stand in signatures and
/// fields. The verifier sees nothing of what is inside a value.
#[verifier::external_type_specification]
#[verifier::external_body]
pub struct ExJsonValue(serde_json::Value);

/// A JSON number, as far as the library reads numbers: a non-negative
/// integer below 2^64 with its value, or any other number.
pub enum JsonNumber {
    Unsigned(u64),
    Other,
}

/// The content of a JSON value.
pub enum Json {
    Null,
    Bool(bool),
    Number(JsonNumber),
    Text(Seq<char>),
    Array(Seq<Json>),
    Object(Map<Seq<char>, Json>),
}

/// The content of a `serde_json::Value`: null, a boolean, a number, a
/// string, an array of values or an object of members by key. It has no
/// definition here; the contracts of the accessors below are what is taken
/// to hold of it.
pub uninterp spec fn json_content(value: serde_json::Value) -> Json;

/// The contents of a list of values, in order.
pub open spec fn json_contents(values: Seq<serde_json::Value>) -> Seq<Json> {
    values.map_values(|value: serde_json::Value| json_content(value))
}

impl Json {
    /// The member under `key`, where this is an object that has one.
    pub open spec fn member(self, key: Seq<char>) -> Option<Json> {
        match self {
            Json::Object(members) => if members.contains_key(key) {
                Some(members[key])
            } else {
                None
            },
            _ => None,
        }
    }

    /// The elements, where this is an array.
    pub open spec fn elements(self) -> Option<Seq<Json>> {
        match self {
            Json::Array(items) => Some(items),
            _ => None,
        }
    }

    /// The characters, where this is a string.
    pub open spec fn text(self) -> Option<Seq<char>> {
        match self {
            Json::Text(chars) => Some(chars),
            _ => None,
        }
    }

    /// The value, where this is a non-negative integer below 2^64.
    pub open spec fn unsigned(self) -> Option<u64> {
        match self {
            Json::Number(JsonNumber::Unsigned(value)) => Some(value),
            _ => None,
        }
    }

    /// The value, where this is a boolean.
    pub open spec fn flag(self) -> Option<bool> {
        match self {
            Json::Bool(value) => Some(value),
            _ => None,
        }
    }
}

/// `serde_json::Value::get` with a string key: the member under `key` if the
/// value is an object that holds the key, and nothing otherwise.
#[verifier::external_body]
pub(crate) fn member<'a>(value: &'a serde_json::Value, key: &str) -> (found: Option<
    &'a serde_json::Value,
>)
    ensures
        match found {
            Some(inner) => json_content(*value).member(key@) == Some(json_content(*inner)),
            None => json_content(*value).member(key@) is None,
        },
{
    value.get(key)
}

/// `serde_json::Value::as_array`: the elements if the value is an array, and
/// nothing otherwise.
#[verifier::external_body]
pub(crate) fn elements<'a>(value: &'a serde_json::Value) -> (found: Option<
    &'a Vec<serde_json::Value>,
>)
    ensures
        match found {
            Some(items) => json_content(*value).elements() == Some(json_contents(items@)),
            None => json_content(*value).elements() is None,
        },
{
    value.as_array()
}

/// `serde_json::Value::as_str`: the text if the value is a string, and
/// nothing otherwise.
#[verifier::external_body]
pub(crate) fn text<'a>(value: &'a serde_json::Value) -> (found: Option<&'a str>)
    ensures
        match found {
            Some(chars) => json_content(*value).text() == Some(chars@),
            None => json_content(*value).text() is None,
        },
{
    value.as_str()
}

/// `serde_json::Value::as_u64`: the number if the value is a non-negative
/// integer below 2^64, and nothing otherwise.
#[verifier::external_body]
pub(crate) fn unsigned(value: &serde_json::Value) -> (found: Option<u64>)
    ensures
        found == json_content(*value).unsigned(),
{
    value.as_u64()
}

/// `serde_json::Value::as_bool`: the boolean if the value is one, and
/// nothing otherwise.
#[verifier::external_body]
pub(crate) fn flag(value: &serde_json::Value) -> (found: Option<bool>)
    ensures
        found == json_content(*value).flag(),
{
    value.as_bool()
}

} // verus!
