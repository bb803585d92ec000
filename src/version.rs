//! Choosing the newest build among several by semantic version.
use vstd::prelude::*;

use crate::model::ImorphEntry;

verus! {

/// The major, minor and patch numbers and the pre-release text that
/// `semver::Version::parse` reads from `s`, or `None` where it rejects `s`.
pub uninterp spec fn semver_parts(s: Seq<char>) -> Option<(u64, u64, u64, Seq<char>)>;

pub open spec fn parts_view(p: Option<(u64, u64, u64, String)>) -> Option<
    (u64, u64, u64, Seq<char>),
> {
    match p {
        Some((a, b, c, pre)) => Some((a, b, c, pre@)),
        None => None,
    }
}

/// Relies on `semver::Version::parse`, which reads a version from the text
/// alone, and hands on its numeric fields and pre-release identifier.
#[verifier::external_body]
fn parse_semver(s: &str) -> (r: Option<(u64, u64, u64, String)>)
    ensures
        parts_view(r) == semver_parts(s@),
{
    semver::Version::parse(s).ok().map(|v| (v.major, v.minor, v.patch, v.pre.as_str().to_string()))
}

/// How a version ranks: by major, minor and patch number. A pre-release, or
/// text that is no version at all, ranks lowest.
pub open spec fn version_rank(p: Option<(u64, u64, u64, Seq<char>)>) -> (u64, u64, u64) {
    match p {
        Some((a, b, c, pre)) => if pre.len() == 0 {
            (a, b, c)
        } else {
            (0, 0, 0)
        },
        None => (0, 0, 0),
    }
}

/// The rank of the build whose tool version is `v`.
pub open spec fn rank_of_text(v: Seq<char>) -> (u64, u64, u64) {
    version_rank(semver_parts(v))
}

/// `a` ranks below `b`, comparing major, then minor, then patch.
pub open spec fn rank_lt(a: (u64, u64, u64), b: (u64, u64, u64)) -> bool {
    a.0 < b.0 || (a.0 == b.0 && (a.1 < b.1 || (a.1 == b.1 && a.2 < b.2)))
}

pub open spec fn rank_le(a: (u64, u64, u64), b: (u64, u64, u64)) -> bool {
    rank_lt(a, b) || a == b
}

/// `i` is the last position that holds a greatest rank of `ranks`.
pub open spec fn is_last_greatest(ranks: Seq<(u64, u64, u64)>, i: int) -> bool {
    &&& 0 <= i < ranks.len()
    &&& forall|j: int| 0 <= j < ranks.len() ==> rank_le(#[trigger] ranks[j], ranks[i])
    &&& forall|j: int| i < j < ranks.len() ==> rank_lt(#[trigger] ranks[j], ranks[i])
}

/// The rank of a parsed version.
pub fn rank_of(parsed: &Option<(u64, u64, u64, String)>) -> (r: (u64, u64, u64))
    ensures
        r == version_rank(parts_view(*parsed)),
{
    match parsed {
        Some((a, b, c, pre)) => if pre.unicode_len() == 0 {
            (*a, *b, *c)
        } else {
            (0, 0, 0)
        },
        None => (0, 0, 0),
    }
}

pub fn rank_less(a: (u64, u64, u64), b: (u64, u64, u64)) -> (r: bool)
    ensures
        r == rank_lt(a, b),
{
    a.0 < b.0 || (a.0 == b.0 && (a.1 < b.1 || (a.1 == b.1 && a.2 < b.2)))
}

/// Position of the greatest rank; of several equal greatest, the last.
pub fn index_of_latest(ranks: &Vec<(u64, u64, u64)>) -> (r: Option<usize>)
    ensures
        ranks@.len() == 0 <==> r is None,
        r matches Some(i) ==> is_last_greatest(ranks@, i as int),
{
    if ranks.len() == 0 {
        return None;
    }
    let mut best: usize = 0;
    let mut k: usize = 1;
    while k < ranks.len()
        invariant
            1 <= k <= ranks@.len(),
            best < k,
            forall|j: int| 0 <= j < k ==> rank_le(#[trigger] ranks@[j], ranks@[best as int]),
            forall|j: int| best < j < k ==> rank_lt(#[trigger] ranks@[j], ranks@[best as int]),
        decreases ranks@.len() - k,
    {
        if !rank_less(ranks[k], ranks[best]) {
            best = k;
        }
        k = k + 1;
    }
    Some(best)
}

/// The ranks of the tool versions of `entries`, in order.
pub open spec fn entry_ranks(entries: Seq<ImorphEntry>) -> Seq<(u64, u64, u64)> {
    entries.map_values(|e: ImorphEntry| rank_of_text(e.imorph_version@))
}

/// The build with the greatest tool version; of several that rank equal, the
/// last. `None` when there is no build to choose from.
pub fn select_latest(entries: Vec<ImorphEntry>) -> (r: Option<ImorphEntry>)
    ensures
        entries@.len() == 0 <==> r is None,
        r matches Some(e) ==> exists|i: int|
            is_last_greatest(entry_ranks(entries@), i) && e == #[trigger] entries@[i],
{
    let mut entries = entries;
    let ghost initial = entries@;
    let mut ranks: Vec<(u64, u64, u64)> = Vec::new();
    let mut k: usize = 0;
    while k < entries.len()
        invariant
            entries@ == initial,
            k <= initial.len(),
            ranks@ == entry_ranks(initial).subrange(0, k as int),
        decreases initial.len() - k,
    {
        let parsed = parse_semver(entries[k].imorph_version.as_str());
        let rank = rank_of(&parsed);
        ranks.push(rank);
        assert(ranks@ =~= entry_ranks(initial).subrange(0, k + 1));
        k = k + 1;
    }
    assert(ranks@ =~= entry_ranks(initial));
    match index_of_latest(&ranks) {
        Some(i) => {
            let e = entries.remove(i);
            Some(e)
        },
        None => None,
    }
}

} // verus!
