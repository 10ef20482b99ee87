//! What counts as a JSON document.
use vstd::prelude::*;

verus! {

/// Whether `text`, taken whole, is one JSON document as `serde_json` reads it.
pub uninterp spec fn is_json(text: Seq<char>) -> bool;

/// `serde_json::from_str` into a `serde_json::Value`: says whether the text is
/// accepted. The reader decides on the characters of the text alone.
#[verifier::external_body]
pub(crate) fn parses_as_json(text: &str) -> (accepted: bool)
    ensures
        accepted == is_json(text@),
{
    serde_json::from_str::<serde_json::Value>(text).is_ok()
}

} // verus!
