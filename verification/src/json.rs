//! JSON documents as `serde_json` holds them, and the few questions the
//! library asks of one.
//!
//! Reading a text and looking into a value are left to `serde_json`. What is
//! said here of its functions is taken from its documentation and is not
//! proved; everything else in the library is proved from it.

use vstd::prelude::*;

verus! {

/// A JSON document: one of the six kinds of value, with what it holds.
/// Numbers are not told apart.
pub enum Json {
    Null,
    Bool(bool),
    Number,
    Text(Seq<char>),
    Array(Seq<Json>),
    Object(Map<Seq<char>, Json>),
}

/// `serde_json::Value`, taken as it is: the library looks into one only
/// through the functions below.
#[verifier::external_type_specification]
#[verifier::external_body]
pub struct ExValue(serde_json::Value);

/// The document that a `serde_json::Value` holds.
pub uninterp spec fn json_of(v: serde_json::Value) -> Json;

/// The document that `serde_json::from_slice` reads from a text, or `None`
/// where it reports an error.
pub uninterp spec fn json_text(text: Seq<u8>) -> Option<Json>;

/// `serde_json::from_slice` at `serde_json::Value`: the value read from the
/// bytes of a JSON text, or `None` where the text is rejected.
#[verifier::external_body]
pub(crate) fn parse(text: &[u8]) -> (r: Option<serde_json::Value>)
    ensures
        match r {
            Some(v) => json_text(text@) == Some(json_of(v)),
            None => json_text(text@) is None,
        },
{
    serde_json::from_slice::<serde_json::Value>(text).ok()
}

/// `serde_json::Value::as_array`: the elements where the value is an array,
/// `None` for every other kind of value.
pub assume_specification<'a>[ serde_json::Value::as_array ](v: &'a serde_json::Value) -> (r: Option<&'a Vec<serde_json::Value>>)
    ensures
        match r {
            Some(items) => json_of(*v) == Json::Array(
                items@.map_values(|e: serde_json::Value| json_of(e)),
            ),
            None => !(json_of(*v) is Array),
        },
;

/// `serde_json::Value::as_str`: the text where the value is a string, `None`
/// for every other kind of value.
pub assume_specification<'a>[ serde_json::Value::as_str ](v: &'a serde_json::Value) -> (r: Option<&'a str>)
    ensures
        match r {
            Some(s) => json_of(*v) == Json::Text(s@),
            None => !(json_of(*v) is Text),
        },
;

/// `serde_json::Value::get` with a string index: the member under `key` where
/// the value is an object that has one, `None` otherwise.
#[verifier::external_body]
pub(crate) fn member<'a>(v: &'a serde_json::Value, key: &str) -> (r: Option<&'a serde_json::Value>)
    ensures
        match r {
            Some(m) => json_of(*v) is Object && json_of(*v)->Object_0.contains_key(key@)
                && json_of(*v)->Object_0[key@] == json_of(*m),
            None => !(json_of(*v) is Object && json_of(*v)->Object_0.contains_key(key@)),
        },
{
    v.get(key)
}

/// The text under `key` of an object, where there is one.
pub open spec fn text_member(j: Json, key: Seq<char>) -> Option<Seq<char>> {
    match j {
        Json::Object(members) => if members.contains_key(key) {
            match members[key] {
                Json::Text(t) => Some(t),
                _ => None,
            }
        } else {
            None
        },
        _ => None,
    }
}

/// Reads the string member `key` of a JSON object.
pub fn string_member(v: &serde_json::Value, key: &str) -> (r: Option<String>)
    ensures
        match r {
            Some(s) => text_member(json_of(*v), key@) == Some(s@),
            None => text_member(json_of(*v), key@) is None,
        },
{
    match member(v, key) {
        Some(m) => match m.as_str() {
            Some(s) => Some(s.to_owned()),
            None => None,
        },
        None => None,
    }
}

} // verus!
