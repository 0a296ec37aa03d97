//! Reading one string field of a JSON document with `serde_json`.
use vstd::prelude::*;

verus! {

/// What `serde_json` makes of the JSON text `text` for the field `key`:
/// `None` when the text is not JSON, `Some(None)` when the top level is not an
/// object or the field is missing or not a string, `Some(Some(s))` for the
/// string `s`.
pub uninterp spec fn json_field(text: Seq<u8>, key: Seq<char>) -> Option<Option<Seq<char>>>;

/// Parses `text` with `serde_json::from_slice::<serde_json::Value>` and reads
/// the string field `key` of the top-level object (`Value::get`, then
/// `Value::as_str`). The contract names the result: what JSON parsing finds
/// is not restated here.
#[verifier::external_body]
pub(crate) fn json_string_field(text: &[u8], key: &str) -> (r: Option<Option<String>>)
    ensures
        match r {
            None => json_field(text@, key@) is None,
            Some(None) => json_field(text@, key@) == Some(None::<Seq<char>>),
            Some(Some(s)) => json_field(text@, key@) == Some(Some(s@)),
        },
{
    let v: serde_json::Value = serde_json::from_slice(text).ok()?;
    Some(v.get(key).and_then(|t| t.as_str()).map(|s| s.to_string()))
}

/// The string field `key` of the JSON text, when the text is JSON and the
/// field is a string.
pub open spec fn json_str_field(text: Seq<u8>, key: Seq<char>) -> Option<Seq<char>> {
    match json_field(text, key) {
        Some(Some(s)) => Some(s),
        _ => None,
    }
}

} // verus!
