//! Matching lines against regular expressions.
//!
//! The matching itself is the `regex` crate's; what the library does with
//! the captured groups is verified.

use vstd::prelude::*;

verus! {

/// What the groups of the regular expression `pattern` capture at its
/// leftmost match in `text`: `None` where `pattern` is no regular expression
/// or matches nowhere; else one entry for each group, the whole match at
/// index 0, with `None` for a group that took no part in the match.
pub uninterp spec fn regex_captures(pattern: Seq<char>, text: Seq<char>) -> Option<
    Seq<Option<Seq<char>>>,
>;

pub open spec fn groups_view(groups: Seq<Option<String>>) -> Seq<Option<Seq<char>>> {
    groups.map_values(
        |g: Option<String>|
            match g {
                Some(s) => Some(s@),
                None => None,
            },
    )
}

pub open spec fn captures_view(r: Option<Vec<Option<String>>>) -> Option<Seq<Option<Seq<char>>>> {
    match r {
        Some(groups) => Some(groups_view(groups@)),
        None => None,
    }
}

/// The groups that `pattern` captures in `text`.
///
/// Trusted: names what `regex::Regex::captures` finds in `text` for the
/// regular expression that `regex::Regex::new` makes of `pattern`, each
/// group taken as its text. Both depend on their arguments alone. Nothing
/// else is claimed of the result.
#[verifier::external_body]
pub(crate) fn captures(pattern: &str, text: &str) -> (r: Option<Vec<Option<String>>>)
    ensures
        captures_view(r) == regex_captures(pattern@, text@),
{
    let re = regex::Regex::new(pattern).ok()?;
    let caps = re.captures(text)?;
    Some(caps.iter().map(|m| m.map(|m| m.as_str().to_string())).collect())
}

/// The text of group `i`, where the match has such a group and it took part.
pub open spec fn group_text(groups: Seq<Option<Seq<char>>>, i: int) -> Option<Seq<char>> {
    if 0 <= i < groups.len() {
        groups[i]
    } else {
        None
    }
}

/// The text of group `i`, where the match has such a group and it took part.
pub fn group(groups: &Vec<Option<String>>, i: usize) -> (r: Option<&String>)
    ensures
        match r {
            Some(s) => group_text(groups_view(groups@), i as int) == Some(s@),
            None => group_text(groups_view(groups@), i as int) is None,
        },
{
    if i < groups.len() {
        match &groups[i] {
            Some(s) => Some(s),
            None => None,
        }
    } else {
        None
    }
}

} // verus!
