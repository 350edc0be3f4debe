//! The JSON operations the library needs, performed by `serde_json`.

use vstd::prelude::*;

verus! {

/// The string value of member `key` of the JSON object written in `json`, when `json`
/// parses as an object whose member `key` is a string.
pub uninterp spec fn spec_json_string_field(json: Seq<char>, key: Seq<char>) -> Option<Seq<char>>;

/// The JSON text of an array of the given strings.
pub uninterp spec fn spec_json_string_array(items: Seq<Seq<char>>) -> Seq<char>;

/// The compact JSON text of the value `json` parses to, when it parses.
pub uninterp spec fn spec_json_normal(json: Seq<char>) -> Option<Seq<char>>;

/// The value of member `key` of the JSON object written in `json`, when that member is a
/// non-negative integer that fits in a `u64`.
pub uninterp spec fn spec_json_u64_field(json: Seq<char>, key: Seq<char>) -> Option<u64>;

/// The value of member `key` of the JSON object written in `json`, when it is a boolean.
pub uninterp spec fn spec_json_bool_field(json: Seq<char>, key: Seq<char>) -> Option<bool>;

/// Member `key` of the JSON object in `json`, when it is a string. Parses with
/// `serde_json::from_str` and reads the member with `Value::get` and `Value::as_str`;
/// the result is named by `spec_json_string_field` and depends on the arguments alone.
#[verifier::external_body]
pub(crate) fn json_string_field(json: &str, key: &str) -> (r: Option<String>)
    ensures
        match r {
            Some(s) => spec_json_string_field(json@, key@) == Some(s@),
            None => spec_json_string_field(json@, key@) is None,
        },
{
    let value: serde_json::Value = serde_json::from_str(json).ok()?;
    value.get(key)?.as_str().map(|s| s.to_string())
}

/// JSON text of an array of strings, from `serde_json::to_string`; the result is named
/// by `spec_json_string_array`. Serialising strings cannot fail, so the empty-string
/// fallback is never taken.
#[verifier::external_body]
pub(crate) fn json_string_array(items: &Vec<String>) -> (r: String)
    ensures
        r@ == spec_json_string_array(items@.map_values(|s: String| s@)),
{
    serde_json::to_string(items).unwrap_or_default()
}

/// Parses `json` with `serde_json::from_str::<serde_json::Value>` and writes the value
/// back with `Value::to_string`; the result is named by `spec_json_normal` and is `None`
/// exactly when the text does not parse.
#[verifier::external_body]
pub(crate) fn json_normalize(json: &str) -> (r: Option<String>)
    ensures
        match r {
            Some(s) => spec_json_normal(json@) == Some(s@),
            None => spec_json_normal(json@) is None,
        },
{
    serde_json::from_str::<serde_json::Value>(json).ok().map(|v| v.to_string())
}

/// Member `key` of the JSON object in `json`, read with `Value::get` and
/// `Value::as_u64`; named by `spec_json_u64_field`.
#[verifier::external_body]
pub(crate) fn json_u64_field(json: &str, key: &str) -> (r: Option<u64>)
    ensures
        r == spec_json_u64_field(json@, key@),
{
    let value: serde_json::Value = serde_json::from_str(json).ok()?;
    value.get(key)?.as_u64()
}

/// Member `key` of the JSON object in `json`, read with `Value::get` and
/// `Value::as_bool`; named by `spec_json_bool_field`.
#[verifier::external_body]
pub(crate) fn json_bool_field(json: &str, key: &str) -> (r: Option<bool>)
    ensures
        r == spec_json_bool_field(json@, key@),
{
    let value: serde_json::Value = serde_json::from_str(json).ok()?;
    value.get(key)?.as_bool()
}

} // verus!
