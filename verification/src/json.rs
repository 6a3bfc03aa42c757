//! The one question that this library asks of a JSON parser.

use vstd::prelude::*;

verus! {

/// What a full parse of `text` as JSON finds under the top-level key `key`:
/// the unsigned integer that stands there, `None` where the text is JSON but
/// has no unsigned integer under that key, or the parser's message where the
/// text is no JSON.
pub uninterp spec fn top_level_unsigned(text: Seq<char>, key: Seq<char>) -> Result<
    Option<u64>,
    Seq<char>,
>;

/// The result of a full parse with its message taken by its view.
pub open spec fn parse_view(r: Result<Option<u64>, String>) -> Result<Option<u64>, Seq<char>> {
    match r {
        Ok(v) => Ok(v),
        Err(e) => Err(e@),
    }
}

/// Parses the whole of `text` with `serde_json::from_str` into a
/// `serde_json::Value` and reads the member `key` of the top level with
/// `Value::get` and `Value::as_u64`. Nothing is proved of the parser: the
/// contract only gives its answer a name, so that the same text and key are
/// known to give the same answer.
#[verifier::external_body]
pub(crate) fn read_top_level_unsigned(text: &str, key: &str) -> (r: Result<Option<u64>, String>)
    ensures
        parse_view(r) == top_level_unsigned(text@, key@),
{
    match serde_json::from_str::<serde_json::Value>(text) {
        Ok(value) => match value.get(key) {
            Some(member) => Ok(member.as_u64()),
            None => Ok(None),
        },
        Err(error) => Err(error.to_string()),
    }
}

} // verus!
