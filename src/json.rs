//! Reading fields of a JSON response body, through serde_json.
use vstd::prelude::*;

verus! {

/// Whether the bytes are one well-formed JSON value, as serde_json reads it.
pub uninterp spec fn json_parses(body: Seq<u8>) -> bool;

/// What serde_json says is wrong with `body` when it is not JSON.
pub uninterp spec fn json_error_text(body: Seq<u8>) -> Seq<char>;

/// Whether the JSON object held by `body` has `key` with a value other than `null`.
pub uninterp spec fn json_present_at(body: Seq<u8>, key: Seq<char>) -> bool;

/// The string stored under `key` in the JSON object held by `body`: none when
/// `body` is not JSON, not an object, lacks the key, or holds no string there.
pub uninterp spec fn json_text_at(body: Seq<u8>, key: Seq<char>) -> Option<Seq<char>>;

/// The unsigned integer stored under `key` in the JSON object held by `body`:
/// none when `body` is not JSON, not an object, lacks the key, or holds no
/// integer in the range of `u64` there.
pub uninterp spec fn json_count_at(body: Seq<u8>, key: Seq<char>) -> Option<u64>;

/// The characters of an optional string.
pub open spec fn opt_text(o: Option<String>) -> Option<Seq<char>> {
    match o {
        Some(s) => Some(s@),
        None => None,
    }
}

/// Relies on serde_json::from_slice and the error's Display: none when `body`
/// parses as a JSON value, else the text serde_json gives for why it does not.
#[verifier::external_body]
pub(crate) fn json_error(body: &[u8]) -> (r: Option<String>)
    ensures
        r is None <==> json_parses(body@),
        r matches Some(m) ==> m@ == json_error_text(body@),
{
    serde_json::from_slice::<serde_json::Value>(body).err().map(|e| e.to_string())
}

/// Relies on serde_json::from_slice, Value::get and Value::is_null: whether the
/// JSON object `body` holds `key` with a value other than `null`; only a body
/// that parses holds one.
#[verifier::external_body]
pub(crate) fn json_present(body: &[u8], key: &str) -> (r: bool)
    ensures
        r == json_present_at(body@, key@),
        r ==> json_parses(body@),
{
    match serde_json::from_slice::<serde_json::Value>(body) {
        Ok(v) => match v.get(key) {
            Some(field) => !field.is_null(),
            None => false,
        },
        Err(_) => false,
    }
}

/// Relies on serde_json::from_slice, Value::get and Value::as_str: the string
/// under `key` of the parsed object; a string is found only in a body that parses.
#[verifier::external_body]
pub(crate) fn json_text(body: &[u8], key: &str) -> (r: Option<String>)
    ensures
        opt_text(r) == json_text_at(body@, key@),
        r is Some ==> json_parses(body@),
{
    match serde_json::from_slice::<serde_json::Value>(body) {
        Ok(v) => match v.get(key) {
            Some(field) => field.as_str().map(String::from),
            None => None,
        },
        Err(_) => None,
    }
}

/// Relies on serde_json::from_slice, Value::get and Value::as_u64: the unsigned
/// integer under `key` of the parsed object; one is found only in a body that parses.
#[verifier::external_body]
pub(crate) fn json_count(body: &[u8], key: &str) -> (r: Option<u64>)
    ensures
        r == json_count_at(body@, key@),
        r is Some ==> json_parses(body@),
{
    match serde_json::from_slice::<serde_json::Value>(body) {
        Ok(v) => match v.get(key) {
            Some(field) => field.as_u64(),
            None => None,
        },
        Err(_) => None,
    }
}

} // verus!
