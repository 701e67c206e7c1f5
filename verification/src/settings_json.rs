//! Flat string maps that the settings UI hands over as JSON objects (a
//! source's connection options, a sign-in wizard's first-step seed).
use crate::str_map::{keys_sorted, StrMap};
use vstd::prelude::*;

verus! {

/// What `serde_json` makes of `text` read as a JSON object of strings into
/// a `BTreeMap<String, String>`: its entries in ascending key order, or
/// the error's text.
pub uninterp spec fn json_string_map(text: Seq<char>) -> Result<Seq<(Seq<char>, Seq<char>)>, Seq<char>>;

/// `serde_json::from_str::<BTreeMap<String, String>>`, its map walked in
/// order, its error shown with `Display`. Trusted: the result is the named
/// [`json_string_map`] of the text, and the keys come out strictly
/// ascending (a `BTreeMap`'s iteration order; `String`'s order is that of
/// its characters).
#[verifier::external_body]
fn json_pairs(text: &str) -> (r: Result<Vec<(String, String)>, String>)
    ensures
        match r {
            Ok(v) => json_string_map(text@) == Ok::<Seq<(Seq<char>, Seq<char>)>, Seq<char>>(
                v@.map_values(|e: (String, String)| (e.0@, e.1@)),
            ) && keys_sorted(v@.map_values(|e: (String, String)| (e.0@, e.1@))),
            Err(e) => json_string_map(text@) == Err::<Seq<(Seq<char>, Seq<char>)>, Seq<char>>(e@),
        },
{
    match serde_json::from_str::<std::collections::BTreeMap<String, String>>(text) {
        Ok(m) => Ok(m.into_iter().collect()),
        Err(e) => Err(e.to_string()),
    }
}

/// Decodes a JSON object of strings into a map, or gives the decoder's
/// error text.
pub fn decode_string_map(text: &str) -> (r: Result<StrMap<String>, String>)
    ensures
        match json_string_map(text@) {
            Ok(es) => r matches Ok(m) && m@ == es,
            Err(e) => r matches Err(t) && t@ == e,
        },
{
    match json_pairs(text) {
        Ok(v) => Ok(StrMap::from_sorted(v)),
        Err(e) => Err(e),
    }
}

} // verus!
