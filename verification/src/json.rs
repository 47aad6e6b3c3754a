//! Reading single members of JSON documents, through `serde_json`.
//!
//! Each function here parses a byte slice with `serde_json::from_slice` into
//! a `serde_json::Value` and reads one member of the top-level object. What
//! they return is named by a spec function of the bytes and the member's
//! name: parsing is deterministic, and the launcher's own rules are stated
//! over those names.

use vstd::prelude::*;

verus! {

/// The string member `key` of the JSON object that `doc` holds; `None` when
/// `doc` is not JSON, is not an object, lacks `key`, or holds a non-string there.
pub uninterp spec fn json_string_member(doc: Seq<u8>, key: Seq<char>) -> Option<Seq<char>>;

/// The member `key` of the JSON object that `doc` holds, when it is an
/// integer that fits in `u64`.
pub uninterp spec fn json_u64_member(doc: Seq<u8>, key: Seq<char>) -> Option<u64>;

/// The member `key` of the JSON object that `doc` holds, written back as
/// JSON text; `None` when `doc` is not JSON, is not an object, or lacks `key`.
pub uninterp spec fn json_member_text(doc: Seq<u8>, key: Seq<char>) -> Option<Seq<char>>;

/// The text of the error that parsing `doc` as JSON gives, or `None` when
/// `doc` is a JSON document.
pub uninterp spec fn json_error_text(doc: Seq<u8>) -> Option<Seq<char>>;

/// Calls `serde_json::from_slice::<Value>`, then `Value::get(key)` and
/// `Value::as_str`. Claimed: the result is `json_string_member` of the same
/// bytes and key (so two calls on equal arguments agree); nothing more.
#[verifier::external_body]
pub(crate) fn lookup_json_string(doc: &[u8], key: &str) -> (res: Option<String>)
    ensures
        res.deep_view() == json_string_member(doc@, key@),
{
    match serde_json::from_slice::<serde_json::Value>(doc) {
        Ok(value) => value.get(key).and_then(serde_json::Value::as_str).map(str::to_owned),
        Err(_) => None,
    }
}

/// Calls `serde_json::from_slice::<Value>`, then `Value::get(key)` and
/// `Value::as_u64`. Claimed: the result is `json_u64_member` of the same
/// bytes and key; nothing more.
#[verifier::external_body]
pub(crate) fn lookup_json_u64(doc: &[u8], key: &str) -> (res: Option<u64>)
    ensures
        res == json_u64_member(doc@, key@),
{
    match serde_json::from_slice::<serde_json::Value>(doc) {
        Ok(value) => value.get(key).and_then(serde_json::Value::as_u64),
        Err(_) => None,
    }
}

/// Calls `serde_json::from_slice::<Value>`, then `Value::get(key)`, and
/// writes the member back with `Value`'s `Display` (compact JSON). Claimed:
/// the result is `json_member_text` of the same bytes and key; nothing more.
#[verifier::external_body]
pub(crate) fn lookup_json_member(doc: &[u8], key: &str) -> (res: Option<String>)
    ensures
        res.deep_view() == json_member_text(doc@, key@),
{
    match serde_json::from_slice::<serde_json::Value>(doc) {
        Ok(value) => value.get(key).map(serde_json::Value::to_string),
        Err(_) => None,
    }
}

/// Calls `serde_json::from_slice::<Value>` and, on failure, formats the
/// `serde_json::Error` with `Display`. Claimed: the result is
/// `json_error_text` of the same bytes; which documents fail, and the wording
/// of the message, are left to `serde_json`.
#[verifier::external_body]
pub(crate) fn json_parse_error(doc: &[u8]) -> (res: Option<String>)
    ensures
        res.deep_view() == json_error_text(doc@),
{
    match serde_json::from_slice::<serde_json::Value>(doc) {
        Ok(_) => None,
        Err(e) => Some(e.to_string()),
    }
}

} // verus!
