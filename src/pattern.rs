//! Regular-expression matching, through the `regex` crate.
use vstd::prelude::*;

verus! {

/// The groups that `regex::Regex::captures` reports for `pattern` on
/// `text`, group 0 first, each `None` where the group took no part in the
/// match; `None` where the pattern does not compile or does not match.
pub uninterp spec fn regex_captures(pattern: Seq<char>, text: Seq<char>) -> Option<
    Seq<Option<Seq<char>>>,
>;

pub open spec fn groups_view(g: Option<Vec<Option<String>>>) -> Option<Seq<Option<Seq<char>>>> {
    match g {
        Some(v) => Some(
            v@.map_values(
                |o: Option<String>|
                    match o {
                        Some(s) => Some(s@),
                        None => None,
                    },
            ),
        ),
        None => None,
    }
}

/// Relies on `regex::Regex::new` and `Regex::captures`: which groups match
/// depends on the pattern and the text alone.
#[verifier::external_body]
pub(crate) fn captures(pattern: &str, text: &str) -> (r: Option<Vec<Option<String>>>)
    ensures
        groups_view(r) == regex_captures(pattern@, text@),
{
    let re = regex::Regex::new(pattern).ok()?;
    let caps = re.captures(text)?;
    Some(caps.iter().map(|m| m.map(|m| m.as_str().to_string())).collect())
}

pub open spec fn group(caps: Seq<Option<Seq<char>>>, i: int) -> Option<Seq<char>> {
    if 0 <= i < caps.len() {
        caps[i]
    } else {
        None
    }
}

pub open spec fn or_empty(o: Option<Seq<char>>) -> Seq<char> {
    match o {
        Some(s) => s,
        None => Seq::empty(),
    }
}

/// Group `i` of the captures `caps`.
pub(crate) fn group_at(caps: &Vec<Option<String>>, i: usize) -> (r: Option<String>)
    ensures
        match r {
            Some(s) => group(groups_view(Some(*caps))->0, i as int) == Some(s@),
            None => group(groups_view(Some(*caps))->0, i as int) is None,
        },
{
    if i < caps.len() {
        match &caps[i] {
            Some(s) => Some(s.clone()),
            None => None,
        }
    } else {
        None
    }
}

} // verus!
