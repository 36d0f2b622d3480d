//! Reading fields of a JSON document with `serde_json`.
//!
//! Each reader parses the text with `serde_json::from_str::<serde_json::Value>`
//! and reads one field of the top-level object; the results are values of
//! their own, named below as functions of the text and the key.

use vstd::prelude::*;

use crate::text::opt_str_view;

verus! {

/// Whether `serde_json` parses the text as a JSON document.
pub uninterp spec fn json_is_valid(text: Seq<char>) -> bool;

/// The string under `key` in the top-level object of the document, if the
/// text parses and that value is a string.
pub uninterp spec fn json_str_field(text: Seq<char>, key: Seq<char>) -> Option<Seq<char>>;

/// The number under `key` as `Value::as_i64` reads it.
pub uninterp spec fn json_i64_field(text: Seq<char>, key: Seq<char>) -> Option<i64>;

/// The number under `key` as `Value::as_u64` reads it.
pub uninterp spec fn json_u64_field(text: Seq<char>, key: Seq<char>) -> Option<u64>;

/// The array under `key`, each item read with `Value::as_str`.
pub uninterp spec fn json_str_items_field(text: Seq<char>, key: Seq<char>) -> Option<
    Seq<Option<Seq<char>>>,
>;

/// Whether `serde_json::from_str::<serde_json::Value>(text)` succeeds.
///
/// Claims only that the answer is a function of the text.
#[verifier::external_body]
pub(crate) fn json_parses(text: &str) -> (r: bool)
    ensures
        r == json_is_valid(text@),
{
    serde_json::from_str::<serde_json::Value>(text).is_ok()
}

/// `value.get(key).and_then(Value::as_str)` on the parsed text, owned.
///
/// Claims only that the answer is a function of the text and the key.
#[verifier::external_body]
pub(crate) fn json_get_str(text: &str, key: &str) -> (r: Option<String>)
    ensures
        opt_str_view(r) == json_str_field(text@, key@),
{
    let value = serde_json::from_str::<serde_json::Value>(text).ok()?;
    value.get(key).and_then(|v| v.as_str()).map(String::from)
}

/// `value.get(key).and_then(Value::as_i64)` on the parsed text.
///
/// Claims only that the answer is a function of the text and the key.
#[verifier::external_body]
pub(crate) fn json_get_i64(text: &str, key: &str) -> (r: Option<i64>)
    ensures
        r == json_i64_field(text@, key@),
{
    let value = serde_json::from_str::<serde_json::Value>(text).ok()?;
    value.get(key).and_then(|v| v.as_i64())
}

/// `value.get(key).and_then(Value::as_u64)` on the parsed text.
///
/// Claims only that the answer is a function of the text and the key.
#[verifier::external_body]
pub(crate) fn json_get_u64(text: &str, key: &str) -> (r: Option<u64>)
    ensures
        r == json_u64_field(text@, key@),
{
    let value = serde_json::from_str::<serde_json::Value>(text).ok()?;
    value.get(key).and_then(|v| v.as_u64())
}

/// `value.get(key).and_then(Value::as_array)` on the parsed text, each item
/// mapped through `Value::as_str`.
///
/// Claims only that the answer is a function of the text and the key.
#[verifier::external_body]
pub(crate) fn json_get_str_items(text: &str, key: &str) -> (r: Option<Vec<Option<String>>>)
    ensures
        match r {
            Some(items) => json_str_items_field(text@, key@) == Some(
                items@.map_values(|o: Option<String>| opt_str_view(o)),
            ),
            None => json_str_items_field(text@, key@) is None,
        },
{
    let value = serde_json::from_str::<serde_json::Value>(text).ok()?;
    let items = value.get(key).and_then(|v| v.as_array())?;
    Some(items.iter().map(|v| v.as_str().map(String::from)).collect())
}

} // verus!
