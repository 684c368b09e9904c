//! The JSON documents that the pool and the device exchange, read with
//! `serde_json`.
//!
//! What `serde_json::from_str` gives for a text is named here, not
//! rewritten: the names below stand for its result on the text alone.

use vstd::prelude::*;

verus! {

#[verifier::external_type_specification]
#[verifier::external_body]
pub struct ExJsonError(serde_json::Error);

/// What `serde_json::from_str::<(String, String, u64)>` gives for `text`:
/// `Some` of the three values when it succeeds, `None` when it fails.
pub uninterp spec fn json_submit_params(text: Seq<char>) -> Option<(Seq<char>, Seq<char>, u64)>;

/// What `serde_json::from_str::<(String, String, String, String)>` gives for
/// `text`: `Some` of the four strings when it succeeds, `None` when it fails.
pub uninterp spec fn json_subscribe_params(text: Seq<char>) -> Option<
    (Seq<char>, Seq<char>, Seq<char>, Seq<char>),
>;

/// What `serde_json::from_str::<Vec<String>>` gives for `text`: `Some` of the
/// strings in order when it succeeds, `None` when it fails.
pub uninterp spec fn json_string_list(text: Seq<char>) -> Option<Seq<Seq<char>>>;

/// The views of a vector of strings.
pub open spec fn strings_view(v: Seq<String>) -> Seq<Seq<char>> {
    v.map_values(|s: String| s@)
}

/// A JSON string needs no escape for `s`: no quote, no backslash, no
/// control character.
pub open spec fn plain_json_text(s: Seq<char>) -> bool {
    forall|i: int| 0 <= i < s.len() ==> s[i] != '"' && s[i] != '\\' && (s[i] as u32) >= 32
}

/// Every string of `items` needs no escape.
pub open spec fn all_plain(items: Seq<Seq<char>>) -> bool {
    forall|j: int| 0 <= j < items.len() ==> plain_json_text(#[trigger] items[j])
}

/// `s` between double quotes.
pub open spec fn quoted(s: Seq<char>) -> Seq<char> {
    seq!['"'] + s + seq!['"']
}

/// The quoted strings of `items`, separated by `, `.
pub open spec fn joined_quoted(items: Seq<Seq<char>>) -> Seq<char>
    decreases items.len(),
{
    if items.len() == 0 {
        Seq::<char>::empty()
    } else if items.len() == 1 {
        quoted(items[0])
    } else {
        joined_quoted(items.drop_last()) + seq![',', ' '] + quoted(items.last())
    }
}

/// The JSON array of the strings `items`, written without escapes:
/// `["a", "b"]`.
pub open spec fn json_array_text(items: Seq<Seq<char>>) -> Seq<char> {
    seq!['['] + joined_quoted(items) + seq![']']
}

/// Calls `serde_json::from_str::<(String, String, u64)>` on `text`.
/// Claimed: the result is `Ok` exactly when the name
/// `json_submit_params` gives `Some` for `text`, and then holds those values.
#[verifier::external_body]
pub(crate) fn read_submit_params(text: &str) -> (r: Result<(String, String, u64), serde_json::Error>)
    ensures
        match r {
            Ok((w, a, c)) => json_submit_params(text@) == Some((w@, a@, c)),
            Err(_) => json_submit_params(text@) is None,
        },
{
    serde_json::from_str::<(String, String, u64)>(text)
}

/// Calls `serde_json::from_str::<(String, String, String, String)>` on `text`.
/// Claimed: the result is `Ok` exactly when the name
/// `json_subscribe_params` gives `Some` for `text`, and then holds those values.
#[verifier::external_body]
pub(crate) fn read_subscribe_params(text: &str) -> (r: Result<
    (String, String, String, String),
    serde_json::Error,
>)
    ensures
        match r {
            Ok((p, q, w, a)) => json_subscribe_params(text@) == Some((p@, q@, w@, a@)),
            Err(_) => json_subscribe_params(text@) is None,
        },
{
    serde_json::from_str::<(String, String, String, String)>(text)
}

/// Calls `serde_json::from_str::<Vec<String>>` on `text`.
/// Claimed: the result is `Ok` exactly when the name `json_string_list`
/// gives `Some` for `text`, and then holds those strings in order. Also
/// claimed, from the JSON grammar that `from_str` reads: a text that is an
/// array of strings needing no escape, written as `["a", "b"]`, gives those
/// strings.
#[verifier::external_body]
pub(crate) fn read_string_list(text: &str) -> (r: Result<Vec<String>, serde_json::Error>)
    ensures
        match r {
            Ok(v) => json_string_list(text@) == Some(strings_view(v@)),
            Err(_) => json_string_list(text@) is None,
        },
        forall|items: Seq<Seq<char>>| #[trigger] json_array_text(items) == text@ && all_plain(
            items,
        ) ==> r is Ok && strings_view(r->Ok_0@) == items,
{
    serde_json::from_str::<Vec<String>>(text)
}

} // verus!
