//! The JSON codec the wire format rests on.
//!
//! Parsing and printing are done by `serde_json`.  Nothing in this module is
//! proved: each function states what is taken on trust about the call it makes.

use vstd::prelude::*;

verus! {

#[verifier::external_type_specification]
#[verifier::external_body]
pub struct ExJsonValue(serde_json::Value);

#[verifier::external_type_specification]
#[verifier::external_body]
pub struct ExJsonError(serde_json::Error);

/// What a JSON value holds as text: for an object, its members whose values
/// are strings, each key with the string's contents; for any other value, the
/// empty map.
pub uninterp spec fn text_members(value: serde_json::Value) -> Map<Seq<char>, Seq<char>>;

/// The contents of a JSON value that is a string; `None` for any other value.
pub uninterp spec fn text_of(value: serde_json::Value) -> Option<Seq<char>>;

/// The outcome of `serde_json::from_slice` on a byte string: `None` where it
/// reports an error, otherwise the text members of the value it builds.
pub uninterp spec fn json_text_members(bytes: Seq<u8>) -> Option<Map<Seq<char>, Seq<char>>>;

/// The outcome of `serde_json::to_vec` on the object with the single member
/// `key`, whose value is the string `value`: the bytes it writes, or `None`
/// where it reports an error.
pub uninterp spec fn json_object_text(key: Seq<char>, value: Seq<char>) -> Option<Seq<u8>>;

/// Calls `serde_json::from_slice` for a `Value`.  Trusted: the outcome depends
/// on the bytes alone, so it is the one named by `json_text_members`.
#[verifier::external_body]
pub(crate) fn parse(body: &[u8]) -> (parsed: Result<serde_json::Value, serde_json::Error>)
    ensures
        match parsed {
            Ok(value) => json_text_members(body@) == Some(text_members(value)),
            Err(_) => json_text_members(body@) is None,
        },
{
    serde_json::from_slice::<serde_json::Value>(body)
}

/// Calls `Value::get` with a string key.  Trusted: it returns the member of
/// that name when the value is an object that has one, and `None` otherwise;
/// so the key is among the text members exactly when a member comes back and
/// is a string, and then with that string's contents.
#[verifier::external_body]
pub(crate) fn member<'a>(value: &'a serde_json::Value, key: &str) -> (found: Option<
    &'a serde_json::Value,
>)
    ensures
        match found {
            Some(inner) => match text_of(*inner) {
                Some(text) => text_members(*value).contains_pair(key@, text),
                None => !text_members(*value).contains_key(key@),
            },
            None => !text_members(*value).contains_key(key@),
        },
{
    value.get(key)
}

/// Calls `Value::as_str`.  Trusted: it returns the contents when the value is
/// a string and `None` otherwise.
#[verifier::external_body]
pub(crate) fn text<'a>(value: &'a serde_json::Value) -> (contents: Option<&'a str>)
    ensures
        match contents {
            Some(s) => text_of(*value) == Some(s@),
            None => text_of(*value) is None,
        },
{
    value.as_str()
}

/// Builds the object `{key: value}` and calls `serde_json::to_vec` on it.
/// Trusted: the outcome depends on the two strings alone, so it is the one
/// named by `json_object_text`.
#[verifier::external_body]
pub(crate) fn object_text(key: &str, value: &str) -> (written: Result<Vec<u8>, serde_json::Error>)
    ensures
        match written {
            Ok(bytes) => json_object_text(key@, value@) == Some(bytes@),
            Err(_) => json_object_text(key@, value@) is None,
        },
{
    let mut members = serde_json::Map::new();
    members.insert(key.to_string(), serde_json::Value::String(value.to_string()));
    serde_json::to_vec(&serde_json::Value::Object(members))
}

} // verus!
