//! Reading string values out of JSON documents, through serde_json.
use vstd::prelude::*;

verus! {

/// Names what serde_json reads from the document `text` at the JSON pointer
/// `pointer` (RFC 6901, keys separated by `/`): `None` when `text` is not a
/// JSON document, `Some(None)` when the pointer leads nowhere or to a value
/// that is not a string, and `Some(Some(s))` when it leads to the string `s`.
pub uninterp spec fn json_string_at(text: Seq<char>, pointer: Seq<char>) -> Option<
    Option<Seq<char>>,
>;

/// The view of a lookup result.
pub open spec fn lookup_view(r: Option<Option<String>>) -> Option<Option<Seq<char>>> {
    match r {
        None => None,
        Some(None) => Some(None),
        Some(Some(s)) => Some(Some(s@)),
    }
}

/// Parses `text` with `serde_json::from_str` into a `serde_json::Value`, then
/// follows `pointer` with `Value::pointer` and reads the string there with
/// `Value::as_str`. The contract claims only that the result is the one the
/// name `json_string_at` gives for these two arguments: serde_json's
/// grammar and its pointer resolution are not restated.
#[verifier::external_body]
pub(crate) fn lookup_json_string(text: &str, pointer: &str) -> (r: Option<Option<String>>)
    ensures
        lookup_view(r) == json_string_at(text@, pointer@),
{
    match serde_json::from_str::<serde_json::Value>(text) {
        Ok(v) => Some(v.pointer(pointer).and_then(|x| x.as_str()).map(|s| s.to_string())),
        Err(_) => None,
    }
}

} // verus!
