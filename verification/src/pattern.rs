//! Replacement by regular expression, which the `regex` crate computes.

use vstd::prelude::*;

verus! {

/// What replacing every match of `pattern` in `text` by `replacement` gives,
/// or nothing where `pattern` is no regular expression that the `regex` crate
/// accepts.
pub uninterp spec fn regex_replaced(
    pattern: Seq<char>,
    text: Seq<char>,
    replacement: Seq<char>,
) -> Option<Seq<char>>;

/// The view of a string that may be missing.
pub open spec fn text_view(text: Option<String>) -> Option<Seq<char>> {
    match text {
        Some(s) => Some(s@),
        None => None,
    }
}

/// `regex::Regex::new` on `pattern`, then `Regex::replace_all` on `text`
/// with `replacement`. Both depend on their arguments alone; this gives
/// their joint result its name and claims nothing more. Where the pattern
/// does not compile the result is `None`.
#[verifier::external_body]
pub(crate) fn replace_all(pattern: &str, text: &str, replacement: &str) -> (out: Option<String>)
    ensures
        text_view(out) == regex_replaced(pattern@, text@, replacement@),
{
    match regex::Regex::new(pattern) {
        Ok(re) => Some(re.replace_all(text, replacement).into_owned()),
        Err(_) => None,
    }
}

} // verus!
