//! Looking for a pattern in a text.

use vstd::prelude::*;

verus! {

/// What one match of a pattern holds of three named groups: the text of each
/// group, or `None` for a group that took no part in the match.
pub type Groups = (Option<String>, Option<String>, Option<String>);

/// [`Groups`] as mathematical values.
pub type GroupsView = (Option<Seq<char>>, Option<Seq<char>>, Option<Seq<char>>);

/// The text of a group as a mathematical value.
pub open spec fn group_view(group: Option<String>) -> Option<Seq<char>> {
    match group {
        Some(text) => Some(text@),
        None => None,
    }
}

/// The matches of a pattern as mathematical values.
pub open spec fn matches_view(found: Seq<Groups>) -> Seq<GroupsView> {
    Seq::new(
        found.len(),
        |i: int| (group_view(found[i].0), group_view(found[i].1), group_view(found[i].2)),
    )
}

/// The outcome of a search as a mathematical value.
pub open spec fn search_view(found: Option<Vec<Groups>>) -> Option<Seq<GroupsView>> {
    match found {
        Some(matches) => Some(matches_view(matches@)),
        None => None,
    }
}

/// What the `regex` crate finds of a pattern in a text, where it takes the
/// pattern: for each match that does not overlap with the one before, from
/// left to right, the texts of the three groups with the given names.
pub uninterp spec fn regex_matches(
    pattern: Seq<char>,
    haystack: Seq<char>,
    first: Seq<char>,
    second: Seq<char>,
    third: Seq<char>,
) -> Seq<GroupsView>;

/// Looks for all matches of a pattern in a text and hands back, for each
/// match, the text of the three named groups.
///
/// Calls `Regex::new` of the `regex` crate on the pattern, then
/// `Regex::captures_iter` on the text and `Captures::name` on each match.
/// `None` says that `Regex::new` reported an error. Nothing is said of when it
/// does: it refuses a pattern that is no pattern, and one that is too large,
/// and how large a pattern is can differ from one machine to another. What
/// is found with a pattern that was taken depends on the five texts alone.
#[verifier::external_body]
pub(crate) fn captures(
    pattern: &str,
    haystack: &str,
    first: &str,
    second: &str,
    third: &str,
) -> (r: Option<Vec<Groups>>)
    ensures
        r matches Some(found) ==> matches_view(found@) == regex_matches(
            pattern@,
            haystack@,
            first@,
            second@,
            third@,
        ),
{
    let re = regex::Regex::new(pattern).ok()?;
    let matches = re.captures_iter(haystack).map(
        |m|
            (
                m.name(first).map(|g| g.as_str().to_owned()),
                m.name(second).map(|g| g.as_str().to_owned()),
                m.name(third).map(|g| g.as_str().to_owned()),
            ),
    );
    Some(matches.collect())
}

} // verus!
