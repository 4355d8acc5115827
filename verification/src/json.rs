//! Reading single fields of JSON text through `serde_json`.

use vstd::prelude::*;

verus! {

/// The string value of the top-level field `key` when `text` parses as a
/// JSON object through `serde_json::from_str::<serde_json::Value>`; `None`
/// when the text does not parse, the field is missing or is not a string.
pub uninterp spec fn json_string_field(text: Seq<char>, key: Seq<char>) -> Option<Seq<char>>;

/// Parses `text` with `serde_json::from_str` into a `serde_json::Value`,
/// then reads the field with `Value::get` and `Value::as_str`.
#[verifier::external_body]
pub(crate) fn string_field(text: &str, key: &str) -> (r: Option<String>)
    ensures
        match r {
            Some(s) => json_string_field(text@, key@) == Some(s@),
            None => json_string_field(text@, key@) is None,
        },
{
    let value = match serde_json::from_str::<serde_json::Value>(text) {
        Ok(v) => v,
        Err(_) => return None,
    };
    value.get(key).and_then(|v| v.as_str()).map(|s| s.to_string())
}

} // verus!
