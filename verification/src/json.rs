//! Trusted access to JSON documents through serde_json.
//!
//! A document is carried as its text. The two names below stand for what
//! serde_json computes from that text; nothing else in the crate is trusted.

use vstd::prelude::*;

verus! {

/// The entries of a JSON object document: each member's name paired with the
/// member's own text, ordered by name. `None` when the text is not exactly one
/// JSON object.
pub uninterp spec fn json_entries(s: Seq<char>) -> Option<Seq<(Seq<char>, Seq<char>)>>;

/// The contents of a JSON string document, with its escapes decoded. `None`
/// when the text is not exactly one JSON string.
pub uninterp spec fn json_string(s: Seq<char>) -> Option<Seq<char>>;

/// Relies on serde_json::from_str for serde_json::Map, which parses a JSON
/// object document and refuses any other text, and on serde_json::to_string,
/// which writes a Value's text and cannot fail on a Value. The map is a
/// BTreeMap (the preserve_order feature is off), so the entries come out
/// ordered by name: a function of the text alone.
#[verifier::external_body]
pub(crate) fn object_entries(s: &str) -> (r: Option<Vec<(String, String)>>)
    ensures
        r.deep_view() == json_entries(s@),
{
    match serde_json::from_str::<serde_json::Map<String, serde_json::Value>>(s) {
        Ok(m) => Some(
            m.into_iter().map(|(k, v)| (k, serde_json::to_string(&v).unwrap())).collect(),
        ),
        Err(_) => None,
    }
}

/// Relies on serde_json::from_str for String, which parses a JSON string
/// document to its decoded contents and refuses any other text.
#[verifier::external_body]
pub(crate) fn string_value(s: &str) -> (r: Option<String>)
    ensures
        r.deep_view() == json_string(s@),
{
    serde_json::from_str::<String>(s).ok()
}

} // verus!
