//! Regular expressions, through the `regex` crate. A pattern is given as
//! text and compiled for each search; a pattern that does not compile
//! matches nothing, which the results show as `None`.

use regex::Regex;
use vstd::prelude::*;

verus! {

/// Whether `pattern` matches somewhere in `haystack`, as `Regex::is_match`
/// finds; `None` where `Regex::new` refuses the pattern.
pub uninterp spec fn is_match_of(pattern: Seq<char>, haystack: Seq<char>) -> Option<bool>;

/// `haystack` with every non-overlapping match of `pattern` replaced by
/// `rep`, as `Regex::replace_all` gives it; `None` where `Regex::new`
/// refuses the pattern.
pub uninterp spec fn replaced_all(pattern: Seq<char>, haystack: Seq<char>, rep: Seq<char>) -> Option<
    Seq<char>,
>;

/// For each successive non-overlapping match of `pattern` in `haystack`, as
/// `Regex::captures_iter` finds them, what the first capture group holds, if
/// it took part in the match; `None` where `Regex::new` refuses the pattern.
pub uninterp spec fn first_groups(pattern: Seq<char>, haystack: Seq<char>) -> Option<
    Seq<Option<Seq<char>>>,
>;

/// The views of a list of optional strings.
pub open spec fn option_views(v: Seq<Option<String>>) -> Seq<Option<Seq<char>>> {
    v.map_values(
        |o: Option<String>|
            match o {
                Some(s) => Some(s@),
                None => None,
            },
    )
}

/// `Regex::new`, then `Regex::is_match`: whether the pattern matches
/// anywhere in the haystack.
#[verifier::external_body]
pub(crate) fn is_match(pattern: &str, haystack: &str) -> (r: Option<bool>)
    ensures
        r == is_match_of(pattern@, haystack@),
{
    match Regex::new(pattern) {
        Ok(re) => Some(re.is_match(haystack)),
        Err(_) => None,
    }
}

/// `Regex::new`, then `Regex::replace_all`: the haystack with each match
/// replaced.
#[verifier::external_body]
pub(crate) fn replace_all(pattern: &str, haystack: &str, rep: &str) -> (r: Option<String>)
    ensures
        match r {
            Some(s) => replaced_all(pattern@, haystack@, rep@) == Some(s@),
            None => replaced_all(pattern@, haystack@, rep@) is None,
        },
{
    match Regex::new(pattern) {
        Ok(re) => Some(re.replace_all(haystack, rep).into_owned()),
        Err(_) => None,
    }
}

/// `Regex::new`, then `Regex::captures_iter`: the first capture group of
/// each match, in the order of the matches.
#[verifier::external_body]
pub(crate) fn capture_first_groups(pattern: &str, haystack: &str) -> (r: Option<
    Vec<Option<String>>,
>)
    ensures
        match r {
            Some(groups) => first_groups(pattern@, haystack@) == Some(option_views(groups@)),
            None => first_groups(pattern@, haystack@) is None,
        },
{
    match Regex::new(pattern) {
        Ok(re) => Some(
            re.captures_iter(haystack).map(|c| c.get(1).map(|g| g.as_str().to_owned())).collect(),
        ),
        Err(_) => None,
    }
}

} // verus!
