//! The stored form of a paste's content: JSON text, written and read by
//! `serde_json`.
//!
//! The content of a paste is an ordered sequence of pairs of strings. What
//! `serde_json` makes of it is not spelled out here; it is given a name, and so
//! is what `serde_json` reads back from a text.

use crate::error::PasteError;
use vstd::prelude::*;

verus! {

/// The JSON text that `serde_json::to_string` writes for a sequence of pairs
/// of strings.
pub uninterp spec fn json_text(content: Seq<(Seq<char>, Seq<char>)>) -> Seq<char>;

/// The sequence of pairs of strings that `serde_json::from_str` reads from
/// `text`, or `None` where it reports an error.
pub uninterp spec fn json_pairs(text: Seq<char>) -> Option<Seq<(Seq<char>, Seq<char>)>>;

/// The error that `serde_json` reports.
#[verifier::external_type_specification]
#[verifier::external_body]
pub struct ExJsonError(serde_json::Error);

/// Calls `serde_json::to_string` on a vector of pairs of strings.
///
/// Claimed of it: the call succeeds, since such a value holds no map and no
/// part of it refuses to be written; the text depends on the content alone;
/// and `serde_json::from_str` reads the same pairs back from the text, in the
/// same order, since a string is written with every character either as it is
/// or as an escape that the reader undoes.
#[verifier::external_body]
fn to_json(content: &Vec<(String, String)>) -> (text: Result<String, serde_json::Error>)
    ensures
        text is Ok,
        text matches Ok(t) ==> t@ == json_text(content.deep_view()),
        text matches Ok(t) ==> json_pairs(t@) == Some(content.deep_view()),
{
    serde_json::to_string(content)
}

/// Calls `serde_json::from_str` for a vector of pairs of strings.
///
/// Claimed of it: whether it succeeds, and what it returns, depends on the
/// text alone.
#[verifier::external_body]
fn from_json(text: &str) -> (content: Result<Vec<(String, String)>, serde_json::Error>)
    ensures
        match content {
            Ok(pairs) => json_pairs(text@) == Some(pairs.deep_view()),
            Err(_) => json_pairs(text@) is None,
        },
{
    serde_json::from_str(text)
}

/// The text under which `content` is stored.
pub fn encode_content(content: &Vec<(String, String)>) -> (text: String)
    ensures
        text@ == json_text(content.deep_view()),
        json_pairs(text@) == Some(content.deep_view()),
{
    match to_json(content) {
        Ok(text) => text,
        Err(_) => vstd::pervasive::unreached(),
    }
}

/// The content that is stored under `text`.
pub fn decode_content(text: &str) -> (content: Result<Vec<(String, String)>, PasteError>)
    ensures
        match content {
            Ok(pairs) => json_pairs(text@) == Some(pairs.deep_view()),
            Err(e) => e == PasteError::MalformedContent && json_pairs(text@) is None,
        },
{
    match from_json(text) {
        Ok(pairs) => Ok(pairs),
        Err(_) => Err(PasteError::MalformedContent),
    }
}

} // verus!
