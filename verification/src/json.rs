//! Reading JSON text, which is left to `serde_json`.

use vstd::prelude::*;

verus! {

/// `serde_json::Value`: a JSON document as a tree. The library hands such a
/// value on and looks at nothing inside it.
#[verifier::external_type_specification]
#[verifier::external_body]
pub struct ExJsonValue(serde_json::Value);

/// `serde_json::Error`: why a text was not read as JSON. The library hands
/// such a value on and looks at nothing inside it.
#[verifier::external_type_specification]
#[verifier::external_body]
pub struct ExJsonError(serde_json::Error);

/// What `serde_json::from_str::<serde_json::Value>` makes of a text: the
/// document that the text spells, or the parser's error where it refuses the
/// text.
pub uninterp spec fn json_reading(text: Seq<char>) -> Result<serde_json::Value, serde_json::Error>;

/// Calls `serde_json::from_str` to read `text` as one JSON document.
///
/// Nothing is proved of this function. Its contract claims that the parser's
/// answer, document or error, depends on the text alone: it is what
/// `json_reading` names for the text.
#[verifier::external_body]
pub(crate) fn read_json(text: &str) -> (read: Result<serde_json::Value, serde_json::Error>)
    ensures
        read == json_reading(text@),
{
    serde_json::from_str::<serde_json::Value>(text)
}

} // verus!
