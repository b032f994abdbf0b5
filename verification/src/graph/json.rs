//! The one JSON lookup the adapter performs on response bodies and token payloads.

use vstd::prelude::*;

verus! {

/// What `serde_json` yields for `text` and the JSON pointer `pointer`:
/// `Err(message)` when `text` is not valid JSON; otherwise `Ok(None)` when the
/// pointer addresses nothing, `Ok(Some(None))` when it addresses a non-string
/// value and `Ok(Some(Some(s)))` when it addresses the string `s`.
pub uninterp spec fn json_pointer_spec(text: Seq<u8>, pointer: Seq<char>) -> Result<
    Option<Option<Seq<char>>>,
    Seq<char>,
>;

/// Parses `text` with `serde_json::from_slice::<serde_json::Value>`, looks up
/// `pointer` with `Value::pointer` and reads the value found with
/// `Value::as_str`. On a parse failure the error's `Display` text is returned.
/// The contract only names the outcome ([`json_pointer_spec`]); it depends on
/// the bytes and the pointer alone.
#[verifier::external_body]
pub(crate) fn json_pointer(text: &[u8], pointer: &str) -> (r: Result<Option<Option<String>>, String>)
    ensures
        json_pointer_spec(text@, pointer@) == match r {
            Ok(Some(Some(s))) => Ok::<Option<Option<Seq<char>>>, Seq<char>>(Some(Some(s@))),
            Ok(Some(None)) => Ok::<Option<Option<Seq<char>>>, Seq<char>>(Some(None)),
            Ok(None) => Ok::<Option<Option<Seq<char>>>, Seq<char>>(None),
            Err(m) => Err::<Option<Option<Seq<char>>>, Seq<char>>(m@),
        },
{
    let value = match serde_json::from_slice::<serde_json::Value>(text) {
        Ok(v) => v,
        Err(e) => return Err(e.to_string()),
    };
    match value.pointer(pointer) {
        Some(found) => match found.as_str() {
            Some(s) => Ok(Some(Some(s.to_owned()))),
            None => Ok(Some(None)),
        },
        None => Ok(None),
    }
}

/// The string a pointer addresses, when `text` is JSON and the value is a string.
pub open spec fn json_str_at(text: Seq<u8>, pointer: Seq<char>) -> Option<Seq<char>> {
    match json_pointer_spec(text, pointer) {
        Ok(Some(Some(s))) => Some(s),
        _ => None,
    }
}

/// Reads the string at `pointer`, if `text` is JSON and the value is a string.
pub fn json_str(text: &[u8], pointer: &str) -> (r: Option<String>)
    ensures
        match r {
            Some(s) => json_str_at(text@, pointer@) == Some(s@),
            None => json_str_at(text@, pointer@) is None,
        },
{
    match json_pointer(text, pointer) {
        Ok(Some(Some(s))) => Some(s),
        _ => None,
    }
}

} // verus!
