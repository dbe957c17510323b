//! The bridge to the regular expression engine.

use vstd::prelude::*;
use vstd::string::*;

verus! {

/// Whether the engine accepts a pattern.
pub uninterp spec fn pattern_compiles(pattern: Seq<char>) -> bool;

/// The pattern that a compiled expression was made from.
pub uninterp spec fn regex_source(re: regex::Regex) -> Seq<char>;

/// The first match of a pattern in a haystack, as the byte offsets in the
/// haystack at which the match begins and ends.
pub uninterp spec fn first_match(pattern: Seq<char>, haystack: Seq<char>) -> Option<(int, int)>;

/// The successive matches of a pattern in a haystack, none overlapping
/// another, each as the byte offsets at which it begins and ends.
pub uninterp spec fn all_matches(pattern: Seq<char>, haystack: Seq<char>) -> Seq<(int, int)>;

/// A match lies in the haystack.
pub open spec fn match_in(found: (int, int), haystack: Seq<u8>) -> bool {
    0 <= found.0 <= found.1 <= haystack.len()
}

/// `regex::Regex::new`: the compiled expression, or `None` where the
/// engine rejects the pattern.
#[verifier::external_body]
pub(crate) fn compile(pattern: &str) -> (r: Option<regex::Regex>)
    ensures
        r is Some == pattern_compiles(pattern@),
        r is Some ==> regex_source(r->Some_0) == pattern@,
{
    regex::Regex::new(pattern).ok()
}

/// `regex::Regex::find`: the first match in the haystack, which begins no
/// later than it ends and lies in the haystack.
#[verifier::external_body]
pub(crate) fn find_first(re: &regex::Regex, haystack: &str) -> (r: Option<(usize, usize)>)
    ensures
        match r {
            Some(found) => first_match(regex_source(*re), haystack@) == Some(
                (found.0 as int, found.1 as int),
            ) && match_in((found.0 as int, found.1 as int), haystack.spec_bytes()),
            None => first_match(regex_source(*re), haystack@) is None,
        },
{
    re.find(haystack).map(|found| (found.start(), found.end()))
}

/// `regex::Regex::find_iter`: every match that the iterator yields, in
/// its order; each begins no later than it ends and lies in the haystack.
#[verifier::external_body]
pub(crate) fn find_all(re: &regex::Regex, haystack: &str) -> (r: Vec<(usize, usize)>)
    ensures
        r@.len() == all_matches(regex_source(*re), haystack@).len(),
        forall|i: int|
            0 <= i < r@.len() ==> (#[trigger] r@[i].0 as int, r@[i].1 as int) == all_matches(
                regex_source(*re),
                haystack@,
            )[i] && match_in((r@[i].0 as int, r@[i].1 as int), haystack.spec_bytes()),
{
    re.find_iter(haystack).map(|found| (found.start(), found.end())).collect()
}

/// `regex::Regex::is_match`: whether the pattern has a match anywhere in
/// the haystack.
#[verifier::external_body]
pub(crate) fn is_match(re: &regex::Regex, haystack: &str) -> (r: bool)
    ensures
        r == first_match(regex_source(*re), haystack@) is Some,
{
    re.is_match(haystack)
}

} // verus!
