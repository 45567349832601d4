//! Matching regular expressions against text.
use vstd::prelude::*;

verus! {

/// The capture groups of every match of `pattern` in `text`, match by match
/// from left to right: group 0 is the whole match, and a group that took no
/// part in a match is `None`. A pattern that does not compile has no match.
pub uninterp spec fn regex_captures(pattern: Seq<char>, text: Seq<char>) -> Seq<
    Seq<Option<Seq<char>>>,
>;

/// `text` with every match of `pattern` replaced by `with`. A pattern that
/// does not compile leaves `text` as it is.
pub uninterp spec fn regex_replaced(pattern: Seq<char>, text: Seq<char>, with: Seq<char>) -> Seq<
    char,
>;

/// Runs `regex::Regex::captures_iter` over `text` and copies out the text of
/// every group of every match. Nothing is claimed of what the engine finds
/// beyond the name `regex_captures`. `Regex::new` refuses some patterns; for
/// those the result is empty.
#[verifier::external_body]
pub(crate) fn captures_all(pattern: &str, text: &str) -> (r: Vec<Vec<Option<String>>>)
    ensures
        r.deep_view() == regex_captures(pattern@, text@),
{
    match regex::Regex::new(pattern) {
        Ok(re) => re.captures_iter(text).map(
            |c| c.iter().map(|g| g.map(|m| m.as_str().to_string())).collect(),
        ).collect(),
        Err(_) => Vec::new(),
    }
}

/// Runs `regex::Regex::replace_all` on `text`. The crate documents that a
/// text without a match comes back unchanged, which is all that is claimed
/// beyond the name `regex_replaced`. For a pattern that `Regex::new` refuses
/// the text comes back unchanged as well.
#[verifier::external_body]
pub(crate) fn replace_all(pattern: &str, text: &str, with: &str) -> (r: String)
    ensures
        r@ == regex_replaced(pattern@, text@, with@),
        regex_captures(pattern@, text@).len() == 0 ==> r@ == text@,
{
    match regex::Regex::new(pattern) {
        Ok(re) => re.replace_all(text, with).into_owned(),
        Err(_) => text.to_string(),
    }
}

} // verus!
