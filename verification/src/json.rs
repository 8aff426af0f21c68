//! JSON values as the request's body holds them: in their compact text.

use vstd::prelude::*;
use crate::errors::JsonCategory;

verus! {

/// What parsing `text` as one JSON value gives: the value in compact form
/// (no insignificant white space, the keys of each object in ascending
/// order), or the class of the parse error.
pub uninterp spec fn json_parsed(text: Seq<char>) -> Result<Seq<char>, JsonCategory>;

/// Parses `text` as one JSON value and writes the value out again in
/// compact form.
///
/// Trusted: `serde_json::from_str` into a `serde_json::Value`, the error
/// classified by `serde_json::Error::classify`, and the value written by its
/// `Display`. The contract claims only that the outcome is a function of
/// the text, which it names `json_parsed`.
#[verifier::external_body]
pub(crate) fn parse_json(text: &str) -> (r: Result<String, JsonCategory>)
    ensures
        match r {
            Ok(v) => json_parsed(text@) == Ok::<Seq<char>, JsonCategory>(v@),
            Err(c) => json_parsed(text@) == Err::<Seq<char>, JsonCategory>(c),
        },
{
    match serde_json::from_str::<serde_json::Value>(text) {
        Ok(value) => Ok(value.to_string()),
        Err(e) => Err(
            match e.classify() {
                serde_json::error::Category::Io => JsonCategory::Io,
                serde_json::error::Category::Syntax => JsonCategory::Syntax,
                serde_json::error::Category::Data => JsonCategory::Data,
                serde_json::error::Category::Eof => JsonCategory::Eof,
            },
        ),
    }
}

} // verus!
