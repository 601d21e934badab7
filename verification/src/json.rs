//! JSON documents as `serde_json` holds them.
//!
//! A `serde_json::Value` is opaque to the verifier. What a value holds is
//! named by the spec functions of this module, and the functions below are
//! the only places where the library touches one. Their contracts are taken
//! on trust from `serde_json`; everything built on them is proved.

use vstd::prelude::*;

verus! {

#[verifier::external_type_specification]
#[verifier::external_body]
pub struct ExJsonValue(serde_json::Value);

/// The elements of `v` in order where `v` is a JSON array, `None` for every
/// other kind of value: what `Value::as_array` borrows.
pub uninterp spec fn json_array(v: serde_json::Value) -> Option<Seq<serde_json::Value>>;

/// The members of `v` by key where `v` is a JSON object, `None` for every
/// other kind of value: what `Value::as_object` borrows.
pub uninterp spec fn json_object(v: serde_json::Value) -> Option<Map<Seq<char>, serde_json::Value>>;

/// The characters of `v` where `v` is a JSON string, `None` for every other
/// kind of value: what `Value::as_str` borrows.
pub uninterp spec fn json_string(v: serde_json::Value) -> Option<Seq<char>>;

/// The number that `v` holds where `v` is a JSON number that is an integer
/// in the range of `i64`, `None` for every other value: what
/// `Value::as_i64` returns.
pub uninterp spec fn json_i64(v: serde_json::Value) -> Option<i64>;

/// Whether `v` is the JSON value `null`: what `Value::is_null` returns.
pub uninterp spec fn json_is_null(v: serde_json::Value) -> bool;

#[verifier::external_type_specification]
#[verifier::external_body]
pub struct ExJsonError(serde_json::Error);

/// The compact JSON text of `v`: what `Value::to_string` writes.
pub uninterp spec fn json_text(v: serde_json::Value) -> Seq<char>;

/// The value that `text` denotes where `text` is one well-formed JSON
/// document, `None` where `serde_json::from_str` rejects it.
pub uninterp spec fn json_parse(text: Seq<char>) -> Option<serde_json::Value>;

/// The member of `v` under `key`: `None` unless `v` is an object that has
/// the key.
pub open spec fn json_member(v: serde_json::Value, key: Seq<char>) -> Option<serde_json::Value> {
    match json_object(v) {
        Some(members) => if members.contains_key(key) {
            Some(members[key])
        } else {
            None
        },
        None => None,
    }
}

/// `Value::get` with a string key: the member under `key` of an object, and
/// `None` for a missing key or a value that is no object.
#[verifier::external_body]
pub(crate) fn member<'a>(v: &'a serde_json::Value, key: &str) -> (r: Option<&'a serde_json::Value>)
    ensures
        match r {
            Some(m) => json_object(*v) is Some && json_object(*v)->0.contains_key(key@)
                && json_object(*v)->0[key@] == *m,
            None => json_object(*v) is None || !json_object(*v)->0.contains_key(key@),
        },
{
    v.get(key)
}

/// `Value::as_str`: the string slice of a JSON string, `None` otherwise.
#[verifier::external_body]
pub(crate) fn string_of<'a>(v: &'a serde_json::Value) -> (r: Option<&'a str>)
    ensures
        match r {
            Some(s) => json_string(*v) == Some(s@),
            None => json_string(*v) is None,
        },
{
    v.as_str()
}

/// `Value::as_array`: the vector of a JSON array, `None` otherwise.
#[verifier::external_body]
pub(crate) fn array_of<'a>(v: &'a serde_json::Value) -> (r: Option<&'a Vec<serde_json::Value>>)
    ensures
        match r {
            Some(items) => json_array(*v) == Some(items@),
            None => json_array(*v) is None,
        },
{
    v.as_array()
}

/// `Value::as_i64`: the number of a JSON integer that fits `i64`, `None`
/// otherwise.
#[verifier::external_body]
pub(crate) fn integer_of(v: &serde_json::Value) -> (r: Option<i64>)
    ensures
        r == json_i64(*v),
{
    v.as_i64()
}

/// `Value::is_object`: whether the value is a JSON object.
#[verifier::external_body]
pub(crate) fn is_object(v: &serde_json::Value) -> (r: bool)
    ensures
        r == (json_object(*v) is Some),
{
    v.is_object()
}

/// `Value::is_null`: whether the value is `null`.
#[verifier::external_body]
pub(crate) fn is_null(v: &serde_json::Value) -> (r: bool)
    ensures
        r == json_is_null(*v),
{
    v.is_null()
}

/// `Clone::clone` of a value: an equal value.
pub assume_specification[ <serde_json::Value as Clone>::clone ](v: &serde_json::Value) -> (r:
    serde_json::Value)
    ensures
        r == *v,
;

/// `Value::Array`: the JSON array with the given elements.
#[verifier::external_body]
pub(crate) fn array_value(items: Vec<serde_json::Value>) -> (r: serde_json::Value)
    ensures
        json_array(r) == Some(items@),
{
    serde_json::Value::Array(items)
}

/// `Value::String`: the JSON string with the given characters.
#[verifier::external_body]
pub(crate) fn string_value(s: &str) -> (r: serde_json::Value)
    ensures
        json_string(r) == Some(s@),
{
    serde_json::Value::String(s.to_owned())
}

/// `Value::Object` of `Map::new`: the JSON object without members.
#[verifier::external_body]
pub(crate) fn empty_object() -> (r: serde_json::Value)
    ensures
        json_object(r) == Some(Map::<Seq<char>, serde_json::Value>::empty()),
{
    serde_json::Value::Object(serde_json::Map::new())
}

/// `Map::insert` on the members of an object: `value` stands under `key`
/// afterwards, in place of what stood there before if the key was present,
/// and every other member is as it was.
#[verifier::external_body]
pub(crate) fn set_member(object: &mut serde_json::Value, key: &str, value: serde_json::Value)
    requires
        json_object(*old(object)) is Some,
    ensures
        json_object(*final(object)) == Some(json_object(*old(object))->0.insert(key@, value)),
{
    object.as_object_mut().unwrap().insert(key.to_owned(), value);
}

/// `Value::to_string`: the compact JSON text of a value.
#[verifier::external_body]
pub(crate) fn to_text(v: &serde_json::Value) -> (r: String)
    ensures
        r@ == json_text(*v),
{
    v.to_string()
}

/// `serde_json::from_str` at type `Value`: the value that a JSON text
/// denotes, or the parser's error.
#[verifier::external_body]
pub(crate) fn parse_value(text: &str) -> (r: Result<serde_json::Value, serde_json::Error>)
    ensures
        match r {
            Ok(v) => json_parse(text@) == Some(v),
            Err(_) => json_parse(text@) is None,
        },
{
    serde_json::from_str::<serde_json::Value>(text)
}

} // verus!
