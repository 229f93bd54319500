//! JSON values carried as response bodies, and their text.
use vstd::prelude::*;

verus! {

#[verifier::external_type_specification]
#[verifier::external_body]
pub struct ExValue(serde_json::Value);

/// The compact text that serde_json writes for a value, when it writes one.
pub uninterp spec fn json_text(v: serde_json::Value) -> Option<Seq<char>>;

/// The value that serde_json reads from a text, when the text is JSON.
pub uninterp spec fn json_parsed(s: Seq<char>) -> Option<serde_json::Value>;

/// Relies on serde_json::to_string: the compact text of a value.
#[verifier::external_body]
pub(crate) fn json_to_string(v: &serde_json::Value) -> (r: Option<String>)
    ensures
        match r {
            Some(s) => json_text(*v) == Some(s@),
            None => json_text(*v) is None,
        },
{
    serde_json::to_string(v).ok()
}

/// Relies on serde_json::from_str: reads a value from a JSON text.
#[verifier::external_body]
pub(crate) fn json_from_str(s: &str) -> (r: Option<serde_json::Value>)
    ensures
        r == json_parsed(s@),
{
    serde_json::from_str::<serde_json::Value>(s).ok()
}

} // verus!
