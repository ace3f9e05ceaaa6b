//! Lists of texts as JSON arrays of strings.
use vstd::prelude::*;

verus! {

/// The JSON array of strings that `serde_json` writes for a list of texts.
pub uninterp spec fn json_array(items: Seq<Seq<char>>) -> Seq<char>;

/// The list of texts that `serde_json` reads from a JSON text, or the message of its error.
pub uninterp spec fn json_texts(json: Seq<char>) -> Result<Seq<Seq<char>>, Seq<char>>;

/// Writes a list of texts as a JSON array of strings.
///
/// Calls `serde_json::to_string` on a slice of strings, which cannot fail: strings and sequences
/// of strings are always representable. Claimed of it: the text depends on the list alone, and
/// `serde_json` reads from it the list that was written.
#[verifier::external_body]
pub(crate) fn write_json_array(items: &[String]) -> (json: String)
    ensures
        json@ == json_array(items.deep_view()),
        json_texts(json@) is Ok && json_texts(json@)->Ok_0 == items.deep_view(),
{
    serde_json::to_string(items).unwrap()
}

/// Reads a JSON array of strings.
///
/// Calls `serde_json::from_str::<Vec<String>>` and takes the display text of its error. Claimed
/// of it: the list, or the error's text, depends on the JSON text alone.
#[verifier::external_body]
pub(crate) fn read_json_array(json: &str) -> (items: Result<Vec<String>, String>)
    ensures
        crate::text::outcome(items) == json_texts(json@),
{
    serde_json::from_str::<Vec<String>>(json).map_err(|e| e.to_string())
}

} // verus!
