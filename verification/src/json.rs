//! What the library reads out of JSON text, through `serde_json`.
use vstd::prelude::*;
use vstd::string::*;

use crate::text;

verus! {

/// The elements of the JSON array that `json` holds, each as JSON text; nothing where `json` holds
/// no array.
pub uninterp spec fn array_elements(json: Seq<char>) -> Option<Seq<Seq<char>>>;

/// The member `key` of the JSON object that `json` holds, where it is an unsigned integer.
pub uninterp spec fn u64_member(json: Seq<char>, key: Seq<char>) -> Option<u64>;

/// Reads `json` with `serde_json::from_str` and, where it is an array, writes out each of its
/// elements. Trusted: both are functions of the text alone, named by [`array_elements`].
#[verifier::external_body]
pub(crate) fn read_array(json: &str) -> (r: Option<Vec<String>>)
    ensures
        (match r {
            Some(v) => Some(text::texts(v@)),
            None => None,
        }) == array_elements(json@),
{
    match serde_json::from_str::<serde_json::Value>(json) {
        Ok(serde_json::Value::Array(items)) => Some(items.iter().map(|v| v.to_string()).collect()),
        _ => None,
    }
}

/// Reads `json` with `serde_json::from_str` and takes the member `key` by `Value::as_u64`. Trusted:
/// the result is a function of the text and the key alone, named by [`u64_member`].
#[verifier::external_body]
pub(crate) fn read_u64_member(json: &str, key: &str) -> (r: Option<u64>)
    ensures
        r == u64_member(json@, key@),
{
    match serde_json::from_str::<serde_json::Value>(json) {
        Ok(value) => value[key].as_u64(),
        Err(_) => None,
    }
}

} // verus!
