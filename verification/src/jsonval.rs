//! Access to dynamically shaped JSON documents through serde_json.
//!
//! A parsed document is opaque to the library: these trusted items only
//! carry values through and read strings and numbers out of them.  Logic
//! that depends on what a document holds receives those plain values.

use vstd::prelude::*;

verus! {

#[verifier::external_type_specification]
#[verifier::external_body]
pub struct ExJsonValue(serde_json::Value);

/// Relies on `serde_json::from_slice::<Value>`: parses a JSON document
/// from bytes, or fails.  The parsed document is opaque here; readers
/// below extract plain values from it.
#[verifier::external_body]
pub(crate) fn json_parse(bytes: &[u8]) -> (r: Option<serde_json::Value>) {
    serde_json::from_slice(bytes).ok()
}

/// Relies on `serde_json::Value::get` with a string key: the member of
/// an object under that key, if present.
#[verifier::external_body]
pub(crate) fn json_get<'a>(v: &'a serde_json::Value, key: &str) -> (r: Option<&'a serde_json::Value>) {
    v.get(key)
}

/// Relies on `serde_json::Value::get` with an index: the element of an
/// array at that index, if present.
#[verifier::external_body]
pub(crate) fn json_index(v: &serde_json::Value, i: usize) -> (r: Option<&serde_json::Value>) {
    v.get(i)
}

/// Relies on `serde_json::Value::as_str`: the text of a JSON string, if
/// the value is one.
#[verifier::external_body]
pub(crate) fn json_as_str<'a>(v: &'a serde_json::Value) -> (r: Option<&'a str>) {
    v.as_str()
}

/// Relies on `serde_json::Value::as_u64`: the value of a JSON number
/// representable as an unsigned 64-bit integer, if the value is one.
#[verifier::external_body]
pub(crate) fn json_as_u64(v: &serde_json::Value) -> (r: Option<u64>) {
    v.as_u64()
}

} // verus!
