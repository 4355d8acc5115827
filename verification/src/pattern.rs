//! Regular-expression matching through the `regex` crate.

use vstd::prelude::*;

verus! {

/// Whether `regex::Regex::new(pattern)` compiles and the compiled
/// expression matches somewhere in `text`.
pub uninterp spec fn regex_is_match(pattern: Seq<char>, text: Seq<char>) -> bool;

/// The capture groups of the first match of `pattern` in `text`, group 0
/// (the whole match) first, an unmatched group as `None`; `None` when the
/// pattern does not compile or does not match.
pub uninterp spec fn regex_captures(pattern: Seq<char>, text: Seq<char>) -> Option<
    Seq<Option<Seq<char>>>,
>;

/// Compiles `pattern` with `regex::Regex::new` and calls `Regex::is_match`
/// on `text`.  Nothing is claimed beyond the name: an invalid pattern gives
/// `false`.
#[verifier::external_body]
pub(crate) fn is_match(pattern: &str, text: &str) -> (r: bool)
    ensures
        r == regex_is_match(pattern@, text@),
{
    match regex::Regex::new(pattern) {
        Ok(re) => re.is_match(text),
        Err(_) => false,
    }
}

/// Compiles `pattern` with `regex::Regex::new` and calls `Regex::captures`
/// on `text`, handing each group out as an owned string.
#[verifier::external_body]
pub(crate) fn captures(pattern: &str, text: &str) -> (r: Option<Vec<Option<String>>>)
    ensures
        match r {
            Some(v) => regex_captures(pattern@, text@) == Some(
                v@.map_values(|g: Option<String>| match g {
                    Some(s) => Some(s@),
                    None => None,
                }),
            ),
            None => regex_captures(pattern@, text@) is None,
        },
{
    let re = match regex::Regex::new(pattern) {
        Ok(re) => re,
        Err(_) => return None,
    };
    re.captures(text).map(|c| c.iter().map(|g| g.map(|m| m.as_str().to_string())).collect())
}

} // verus!
