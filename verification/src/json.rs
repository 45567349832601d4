//! Decoding the JSON body of a block.
use vstd::prelude::*;

verus! {

/// What a JSON text holds, as far as this library reads it. `None` where the
/// text is not valid JSON. Otherwise the members of the object it encodes,
/// each key once, with the text of a member that is a JSON string and `None`
/// for a member of any other kind; a document that is not an object has no
/// members.
pub uninterp spec fn json_members(text: Seq<char>) -> Option<Seq<(Seq<char>, Option<Seq<char>>)>>;

/// Decodes `text` with `serde_json::from_str` and copies the members of the
/// resulting object out, keeping the text of string members only. Nothing is
/// claimed of the decoder beyond the name `json_members`.
#[verifier::external_body]
pub(crate) fn decode_members(text: &str) -> (r: Option<Vec<(String, Option<String>)>>)
    ensures
        r.deep_view() == json_members(text@),
{
    match serde_json::from_str::<serde_json::Value>(text) {
        Ok(serde_json::Value::Object(map)) => Some(
            map.iter().map(|(k, v)| (k.clone(), v.as_str().map(|s| s.to_string()))).collect(),
        ),
        Ok(_) => Some(Vec::new()),
        Err(_) => None,
    }
}

} // verus!
