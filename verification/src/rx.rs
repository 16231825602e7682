//! The crate's link to the `regex` engine. Regular-expression matching is
//! not re-implemented here: the two names below stand for what the engine
//! computes, and the wrappers are the only places that call it.
use vstd::prelude::*;

verus! {

/// Whether `pat` is a pattern that the regex engine accepts. This depends on
/// the pattern alone.
pub uninterp spec fn regex_ok(pat: Seq<char>) -> bool;

/// The character-offset ranges `[start, end)` of the successive
/// non-overlapping leftmost matches of `pat` in `text`, in the order the
/// engine reports them; the empty sequence when `pat` is not a pattern the
/// engine accepts. This depends on the pattern and the text alone.
pub uninterp spec fn regex_ranges(pat: Seq<char>, text: Seq<char>) -> Seq<(usize, usize)>;

/// Relies on `regex::Regex::new`: compilation succeeds or fails as a
/// function of the pattern string alone.
#[verifier::external_body]
pub(crate) fn regex_compile_ok(pat: &str) -> (r: bool)
    ensures
        r == regex_ok(pat@),
{
    regex::Regex::new(pat).is_ok()
}

/// Relies on `regex::Regex::new` and `regex::Regex::is_match`: `is_match`
/// returns true exactly when the pattern matches somewhere in the haystack,
/// that is, exactly when `find_iter` would yield at least one match.
/// An uncompilable pattern matches nothing.
#[verifier::external_body]
pub(crate) fn regex_is_match(pat: &str, text: &str) -> (r: bool)
    ensures
        r == (regex_ranges(pat@, text@).len() > 0),
{
    regex::Regex::new(pat).map(|re| re.is_match(text)).unwrap_or(false)
}

/// Relies on `regex::Regex::new` and `regex::Regex::find_iter`: the iterator
/// yields the successive non-overlapping leftmost matches, each with byte
/// offsets into the haystack that fall on character boundaries and are
/// turned one for one into character offsets here. Every match lies within
/// the haystack, and successive matches come in order without overlapping.
/// An uncompilable pattern matches nothing.
#[verifier::external_body]
pub(crate) fn regex_find_ranges(pat: &str, text: &str) -> (r: Vec<(usize, usize)>)
    ensures
        r@ == regex_ranges(pat@, text@),
        forall|k: int| 0 <= k < r@.len() ==> (#[trigger] r@[k]).0 <= r@[k].1 <= text@.len(),
        forall|k: int| 0 <= k < r@.len() - 1 ==> (#[trigger] r@[k]).1 <= r@[k + 1].0,
{
    match regex::Regex::new(pat) {
        Ok(re) => re
            .find_iter(text)
            .map(|m| (
                text[..m.start()].chars().count(),
                text[..m.end()].chars().count(),
            ))
            .collect(),
        Err(_) => Vec::new(),
    }
}

} // verus!
