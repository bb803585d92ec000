//! The version marker: one line `<tool version>|<target version>` that
//! records which build was last installed.
use vstd::prelude::*;

use crate::buildinfo::BuildInfoEntry;
use crate::model::ImorphEntry;
use crate::text::{
    find_char, find_char_exec, find_char_from, is_white_space, text_eq, trim, trim_end, trim_start,
    trim_text,
};

verus! {

/// The tool version and the target application version of the build that
/// was last installed. Both empty stands for "never installed".
#[derive(Debug)]
pub struct VersionMarker {
    pub imorph_version: String,
    pub wow_version: String,
}

/// The two versions that the marker file's `contents` hold: the trimmed text
/// cut at its first `|`. Without a `|` the marker counts as empty.
pub open spec fn marker_of(contents: Seq<char>) -> (Seq<char>, Seq<char>) {
    let t = trim(contents);
    match find_char(t, '|') {
        Some(i) => (t.subrange(0, i), t.subrange(i + 1, t.len() as int)),
        None => (Seq::empty(), Seq::empty()),
    }
}

/// The text that records `imorph_version` for `wow_version`.
pub open spec fn marker_text(imorph_version: Seq<char>, wow_version: Seq<char>) -> Seq<char> {
    imorph_version + "|"@ + wow_version
}

impl VersionMarker {
    /// The marker of a host that never had a build installed.
    pub fn empty() -> (r: VersionMarker)
        ensures
            r.imorph_version@ == Seq::<char>::empty(),
            r.wow_version@ == Seq::<char>::empty(),
    {
        VersionMarker { imorph_version: String::new(), wow_version: String::new() }
    }

    /// Reads a marker from the contents of its file.
    pub fn parse(contents: &str) -> (r: VersionMarker)
        ensures
            (r.imorph_version@, r.wow_version@) == marker_of(contents@),
    {
        let t = trim_text(contents);
        match find_char_exec(t.as_str(), '|') {
            Some(i) => {
                let n = t.as_str().unicode_len();
                let a = t.as_str().substring_char(0, i).to_owned();
                let b = t.as_str().substring_char(i + 1, n).to_owned();
                VersionMarker { imorph_version: a, wow_version: b }
            },
            None => VersionMarker::empty(),
        }
    }

    /// The file contents that record this marker.
    pub fn to_text(&self) -> (r: String)
        ensures
            r@ == marker_text(self.imorph_version@, self.wow_version@),
    {
        let mut r = self.imorph_version.clone();
        r.append("|");
        r.append(self.wow_version.as_str());
        r
    }
}

/// Whether the marker versions `downloaded_imorph_version` and
/// `downloaded_wow_version` record the build `entry` for the installed
/// `buildinfo`: then nothing needs to be downloaded.
pub fn is_already_downloaded(
    downloaded_imorph_version: &str,
    downloaded_wow_version: &str,
    entry: &ImorphEntry,
    buildinfo: &BuildInfoEntry,
) -> (r: bool)
    ensures
        r == (downloaded_imorph_version@ == entry.imorph_version@ && downloaded_wow_version@
            == buildinfo.version@),
{
    text_eq(downloaded_imorph_version, entry.imorph_version.as_str()) && text_eq(
        downloaded_wow_version,
        buildinfo.version.as_str(),
    )
}

proof fn lemma_find_after_prefix(s: Seq<char>, c: char, k: int, n: int)
    requires
        0 <= k <= n < s.len(),
        s[n] == c,
        forall|j: int| k <= j < n ==> s[j] != c,
    ensures
        find_char_from(s, c, k) == Some(n),
    decreases n - k,
{
    if k < n {
        lemma_find_after_prefix(s, c, k + 1, n);
    }
}

/// What a marker file records is read back as written, for versions that
/// hold no `|`, where the tool version does not start and the target version
/// does not end with white space.
pub proof fn lemma_marker_round_trip(imorph_version: Seq<char>, wow_version: Seq<char>)
    requires
        forall|j: int| 0 <= j < imorph_version.len() ==> imorph_version[j] != '|',
        imorph_version.len() > 0 ==> !is_white_space(imorph_version[0]),
        wow_version.len() > 0 ==> !is_white_space(wow_version.last()),
    ensures
        marker_of(marker_text(imorph_version, wow_version)) == (imorph_version, wow_version),
{
    reveal_strlit("|");
    let s = marker_text(imorph_version, wow_version);
    let n = imorph_version.len() as int;
    assert(s[n] == '|');
    assert(!is_white_space('|'));
    assert(!is_white_space(s[0]));
    assert(trim_start(s) == s);
    assert(!is_white_space(s.last()));
    assert(trim_end(s) == s);
    assert forall|j: int| 0 <= j < n implies s[j] != '|' by {
        assert(s[j] == imorph_version[j]);
    }
    lemma_find_after_prefix(s, '|', 0, n);
    assert(s.subrange(0, n) =~= imorph_version);
    assert(s.subrange(n + 1, s.len() as int) =~= wow_version);
}

} // verus!
