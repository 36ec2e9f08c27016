//! Reading single fields of JSON text.

use vstd::prelude::*;

verus! {

/// The number under `field` of a JSON object: `None` where the text is no JSON,
/// and no number where the field holds no unsigned one.
pub uninterp spec fn json_number(text: Seq<u8>, field: Seq<char>) -> Option<Option<u64>>;

/// The text under `field` of a JSON object, where there is one.
pub uninterp spec fn json_text(text: Seq<u8>, field: Seq<char>) -> Option<Seq<char>>;

/// How many fields a JSON object has; `None` where the text is no JSON object.
pub uninterp spec fn json_field_count(text: Seq<u8>) -> Option<usize>;

/// Whether a JSON object has a field.
pub uninterp spec fn json_field_present(text: Seq<u8>, field: Seq<char>) -> bool;

/// The text of the error of reading bytes as JSON; `None` where they are JSON.
pub uninterp spec fn json_error(text: Seq<u8>) -> Option<Seq<char>>;

/// Calls `serde_json::from_slice` and gives the text of its error, which depends
/// on the bytes alone.
#[verifier::external_body]
pub(crate) fn json_check(text: &[u8]) -> (r: Result<(), String>)
    ensures
        r is Ok == json_error(text@) is None,
        r matches Err(e) ==> Some(e@) == json_error(text@),
{
    serde_json::from_slice::<serde_json::Value>(text).map(|_| ()).map_err(
        |error| error.to_string(),
    )
}

/// Calls `serde_json::from_slice` and `Value::as_u64` on one field of the
/// value.
#[verifier::external_body]
pub(crate) fn json_u64_field(text: &[u8], field: &str) -> (number: Option<Option<u64>>)
    ensures
        number == json_number(text@, field@),
{
    serde_json::from_slice::<serde_json::Value>(text).ok().map(
        |value| value.get(field).and_then(serde_json::Value::as_u64),
    )
}

/// Calls `serde_json::from_slice` and `Value::as_str` on one field of the
/// value.
#[verifier::external_body]
pub(crate) fn json_text_field(text: &[u8], field: &str) -> (found: Option<String>)
    ensures
        found is Some == json_text(text@, field@) is Some,
        found matches Some(value) ==> Some(value@) == json_text(text@, field@),
{
    let value = serde_json::from_slice::<serde_json::Value>(text).ok()?;
    value.get(field).and_then(serde_json::Value::as_str).map(String::from)
}

/// Calls `serde_json::from_slice` and `Map::len` on the value, where it is an
/// object.
#[verifier::external_body]
pub(crate) fn json_object_len(text: &[u8]) -> (count: Option<usize>)
    ensures
        count == json_field_count(text@),
{
    let value = serde_json::from_slice::<serde_json::Value>(text).ok()?;
    value.as_object().map(serde_json::Map::len)
}

/// Calls `serde_json::from_slice` and `Value::get` with the field's name.
#[verifier::external_body]
pub(crate) fn json_has_field(text: &[u8], field: &str) -> (present: bool)
    ensures
        present == json_field_present(text@, field@),
{
    match serde_json::from_slice::<serde_json::Value>(text) {
        Ok(value) => value.get(field).is_some(),
        Err(_) => false,
    }
}

} // verus!
