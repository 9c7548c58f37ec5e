//! Regular expressions over texts.

use vstd::prelude::*;

use crate::text::chars::texts_if;

verus! {

/// The texts that a pattern matches in a haystack, one after another and
/// none overlapping another; `None` where the pattern does not compile.
pub uninterp spec fn regex_find_all(pattern: Seq<char>, haystack: Seq<char>) -> Option<
    Seq<Seq<char>>,
>;

/// The parts of a haystack that lie between the matches of a pattern, with
/// the part before the first match and the part after the last; `None`
/// where the pattern does not compile.
pub uninterp spec fn regex_split(pattern: Seq<char>, haystack: Seq<char>) -> Option<
    Seq<Seq<char>>,
>;

/// For each match of a pattern in a haystack, what its groups matched: the
/// whole match first, then each group in the order in which the groups
/// open, with `None` for a group that took no part; `None` where the
/// pattern does not compile.
pub uninterp spec fn regex_captures(pattern: Seq<char>, haystack: Seq<char>) -> Option<
    Seq<Seq<Option<Seq<char>>>>,
>;

/// What the groups of one match hold, as characters.
pub open spec fn groups_view(groups: Seq<Option<String>>) -> Seq<Option<Seq<char>>> {
    groups.map_values(
        |g: Option<String>|
            match g {
                Some(s) => Some(s@),
                None => None,
            },
    )
}

/// What the groups of each match hold, as characters.
pub open spec fn captures_view(captures: Seq<Vec<Option<String>>>) -> Seq<Seq<Option<Seq<char>>>> {
    captures.map_values(|groups: Vec<Option<String>>| groups_view(groups@))
}

/// What the groups of each match hold, where there are matches to speak of.
pub open spec fn captures_if(captures: Option<Vec<Vec<Option<String>>>>) -> Option<
    Seq<Seq<Option<Seq<char>>>>,
> {
    match captures {
        Some(captures) => Some(captures_view(captures@)),
        None => None,
    }
}

/// `Regex::new`, then `Regex::find_iter`: the matches of the pattern in the
/// haystack, each as a string of its own.
#[verifier::external_body]
pub(crate) fn find_all(pattern: &str, haystack: &str) -> (found: Option<Vec<String>>)
    ensures
        texts_if(found) == regex_find_all(pattern@, haystack@),
{
    let re = regex::Regex::new(pattern).ok()?;
    Some(re.find_iter(haystack).map(|m| m.as_str().to_string()).collect())
}

/// `Regex::new`, then `Regex::split`: the parts of the haystack between the
/// matches of the pattern, each as a string of its own.
#[verifier::external_body]
pub(crate) fn split(pattern: &str, haystack: &str) -> (parts: Option<Vec<String>>)
    ensures
        texts_if(parts) == regex_split(pattern@, haystack@),
{
    let re = regex::Regex::new(pattern).ok()?;
    Some(re.split(haystack).map(|part| part.to_string()).collect())
}

/// `Regex::new`, then `Regex::captures_iter` and `Captures::iter`: for each
/// match of the pattern in the haystack, what each of its groups matched.
#[verifier::external_body]
pub(crate) fn captures(pattern: &str, haystack: &str) -> (found: Option<Vec<Vec<Option<String>>>>)
    ensures
        captures_if(found) == regex_captures(pattern@, haystack@),
{
    let re = regex::Regex::new(pattern).ok()?;
    Some(
        re.captures_iter(haystack).map(
            |caps| caps.iter().map(|group| group.map(|m| m.as_str().to_string())).collect(),
        ).collect(),
    )
}

} // verus!
