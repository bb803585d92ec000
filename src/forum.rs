//! Download links from the first post of the tool's forum thread. The post's
//! top-level elements are read in order: every three links form the group of
//! one game flavour (classic era, classic, retail), the first three groups
//! are the global releases and the later ones the Chinese releases, and a
//! bold `Archive:` heading ends the list.
use vstd::prelude::*;

use crate::pattern::{captures, group, group_at, regex_captures};
use crate::text::{text_eq, trim, trim_text};

verus! {

/// A top-level element of the post: its tag name, its text, and its link
/// target if it has one.
pub struct PostElement {
    pub tag: String,
    pub text: String,
    pub href: Option<String>,
}

/// One download link: the build's name (`iMorph` or `iMorph <variant>`),
/// the target version, the tool version and the link itself.
#[derive(Debug)]
pub struct ImorphEntry {
    pub feature: String,
    pub wow_version: String,
    pub imorph_version: String,
    pub url: String,
}

/// The links of one region and game flavour.
#[derive(Debug)]
pub struct DownloadGroup {
    pub region: String,
    pub version: String,
    pub entries: Vec<ImorphEntry>,
}

pub type ElementView = (Seq<char>, Seq<char>, Option<Seq<char>>);

pub type LinkView = (Seq<char>, Seq<char>, Seq<char>, Seq<char>);

pub type GroupView = (Seq<char>, Seq<char>, Seq<LinkView>);

/// How far the post has been read: whether the list ended, the region and
/// flavour that the next group belongs to, the links of the group being
/// filled, and the groups so far.
pub struct ScanView {
    pub stopped: bool,
    pub china: bool,
    pub index: int,
    pub pending: Seq<LinkView>,
    pub groups: Seq<GroupView>,
}

/// The text of a download link: tool version, an optional variant in
/// parentheses, and the target version in brackets.
pub open spec fn link_pattern() -> Seq<char> {
    "iMorph - ([\\d\\.]+) ?(\\(.*\\))? \\[([\\d\\.]+)\\]"@
}

pub open spec fn region_name(china: bool) -> Seq<char> {
    if china {
        "china"@
    } else {
        "global"@
    }
}

/// The flavour of the `index`-th group of a region.
pub open spec fn flavour_name(index: int) -> Seq<char> {
    if index == 0 {
        "classic era"@
    } else if index == 1 {
        "classic"@
    } else if index == 2 {
        "retail"@
    } else {
        Seq::empty()
    }
}

pub open spec fn contains_text(s: Seq<char>, pat: Seq<char>) -> bool {
    exists|i: int| 0 <= i && i + pat.len() <= s.len() && #[trigger] s.subrange(i, i + pat.len()) == pat
}

pub open spec fn is_paren(c: char) -> bool {
    c == '(' || c == ')'
}

pub open spec fn trim_parens_start(s: Seq<char>) -> Seq<char>
    decreases s.len(),
{
    if s.len() > 0 && is_paren(s[0]) {
        trim_parens_start(s.drop_first())
    } else {
        s
    }
}

pub open spec fn trim_parens_end(s: Seq<char>) -> Seq<char>
    decreases s.len(),
{
    if s.len() > 0 && is_paren(s.last()) {
        trim_parens_end(s.drop_last())
    } else {
        s
    }
}

/// `s` without the parentheses at either end.
pub open spec fn trim_parens(s: Seq<char>) -> Seq<char> {
    trim_parens_end(trim_parens_start(s))
}

pub open spec fn link_name(variant: Option<Seq<char>>) -> Seq<char> {
    match variant {
        None => "iMorph"@,
        Some(v) => "iMorph "@ + trim_parens(v),
    }
}

/// The download link that a link element with the (trimmed) text `text`
/// and the target `href` stands for, if it is one.
pub open spec fn link_of(text: Seq<char>, href: Option<Seq<char>>) -> Option<LinkView> {
    match regex_captures(link_pattern(), text) {
        None => None,
        Some(c) => if group(c, 1) is Some && group(c, 3) is Some && href is Some {
            Some((link_name(group(c, 2)), group(c, 3)->0, group(c, 1)->0, href->0))
        } else {
            None
        },
    }
}

/// How many groups of `groups` belong to `region`.
pub open spec fn region_count(groups: Seq<GroupView>, region: Seq<char>) -> nat
    decreases groups.len(),
{
    if groups.len() == 0 {
        0
    } else {
        region_count(groups.drop_last(), region) + if groups.last().0 == region {
            1nat
        } else {
            0nat
        }
    }
}

/// Position of the group for `region` and `flavour`, searching from `from`.
pub open spec fn group_position(
    groups: Seq<GroupView>,
    region: Seq<char>,
    flavour: Seq<char>,
    from: int,
) -> Option<int>
    decreases groups.len() - from,
{
    if from < 0 || from >= groups.len() {
        None
    } else if groups[from].0 == region && groups[from].1 == flavour {
        Some(from)
    } else {
        group_position(groups, region, flavour, from + 1)
    }
}

/// `groups` with the group for `region` and `flavour` set to `links`: in
/// its place where there is one, else at the end.
pub open spec fn put_group(
    groups: Seq<GroupView>,
    region: Seq<char>,
    flavour: Seq<char>,
    links: Seq<LinkView>,
) -> Seq<GroupView> {
    match group_position(groups, region, flavour, 0) {
        Some(i) => groups.update(i, (region, flavour, links)),
        None => groups.push((region, flavour, links)),
    }
}

pub open spec fn scan_start() -> ScanView {
    ScanView {
        stopped: false,
        china: false,
        index: 0,
        pending: Seq::empty(),
        groups: Seq::empty(),
    }
}

/// Reading one more element of the post.
pub open spec fn scan_step(st: ScanView, el: ElementView) -> ScanView {
    if st.stopped {
        st
    } else if el.0 == "b"@ {
        if contains_text(trim(el.1), "Archive:"@) {
            ScanView { stopped: true, ..st }
        } else {
            st
        }
    } else if el.0 == "a"@ {
        match link_of(trim(el.1), el.2) {
            None => st,
            Some(l) => {
                let p = st.pending.push(l);
                if p.len() == 3 {
                    let g = put_group(st.groups, region_name(st.china), flavour_name(st.index), p);
                    if region_count(g, region_name(st.china)) == 3 {
                        ScanView {
                            stopped: false,
                            china: true,
                            index: 0,
                            pending: Seq::empty(),
                            groups: g,
                        }
                    } else {
                        ScanView { index: st.index + 1, pending: Seq::empty(), groups: g, ..st }
                    }
                } else {
                    ScanView { pending: p, ..st }
                }
            },
        }
    } else {
        st
    }
}

/// The post read up to the end of `els`.
pub open spec fn scan(els: Seq<ElementView>) -> ScanView
    decreases els.len(),
{
    if els.len() == 0 {
        scan_start()
    } else {
        scan_step(scan(els.drop_last()), els.last())
    }
}

pub open spec fn element_view(e: PostElement) -> ElementView {
    (
        e.tag@,
        e.text@,
        match e.href {
            Some(h) => Some(h@),
            None => None,
        },
    )
}

pub open spec fn link_view(e: ImorphEntry) -> LinkView {
    (e.feature@, e.wow_version@, e.imorph_version@, e.url@)
}

pub open spec fn links_view(v: Seq<ImorphEntry>) -> Seq<LinkView> {
    v.map_values(|e: ImorphEntry| link_view(e))
}

pub open spec fn group_view(g: DownloadGroup) -> GroupView {
    (g.region@, g.version@, links_view(g.entries@))
}

pub open spec fn groups_view(v: Seq<DownloadGroup>) -> Seq<GroupView> {
    v.map_values(|g: DownloadGroup| group_view(g))
}

/// Whether `pat` occurs in `s`.
pub fn contains_text_exec(s: &str, pat: &str) -> (r: bool)
    ensures
        r == contains_text(s@, pat@),
{
    let n = s.unicode_len();
    let m = pat.unicode_len();
    if m > n {
        return false;
    }
    if m == 0 {
        assert(contains_text(s@, pat@)) by {
            let i = 0int;
            assert(s@.subrange(i, i + pat@.len()) =~= pat@);
        }
        return true;
    }
    let mut i: usize = 0;
    while i <= n - m
        invariant
            n == s@.len(),
            m == pat@.len(),
            1 <= m <= n,
            i <= n - m + 1,
            forall|j: int| 0 <= j < i ==> #[trigger] s@.subrange(j, j + m) != pat@,
        decreases n - m + 1 - i,
    {
        if text_eq(s.substring_char(i, i + m), pat) {
            assert(s@.subrange(i as int, i + pat@.len()) == pat@);
            return true;
        }
        i = i + 1;
    }
    false
}

proof fn lemma_trim_parens_start_from(s: Seq<char>, i: int)
    requires
        0 <= i <= s.len(),
        forall|k: int| 0 <= k < i ==> is_paren(#[trigger] s[k]),
    ensures
        trim_parens_start(s) == trim_parens_start(s.subrange(i, s.len() as int)),
    decreases i,
{
    if i > 0 {
        lemma_trim_parens_start_from(s, i - 1);
        assert(s.subrange(i - 1, s.len() as int).drop_first() =~= s.subrange(i, s.len() as int));
    } else {
        assert(s.subrange(0, s.len() as int) =~= s);
    }
}

proof fn lemma_trim_parens_end_to(s: Seq<char>, j: int)
    requires
        0 <= j <= s.len(),
        forall|k: int| j <= k < s.len() ==> is_paren(#[trigger] s[k]),
    ensures
        trim_parens_end(s) == trim_parens_end(s.subrange(0, j)),
    decreases s.len() - j,
{
    if j < s.len() {
        lemma_trim_parens_end_to(s, j + 1);
        assert(s.subrange(0, j + 1).drop_last() =~= s.subrange(0, j));
    } else {
        assert(s.subrange(0, s.len() as int) =~= s);
    }
}

/// `s` without the parentheses at either end.
pub fn trim_parens_text(s: &str) -> (r: String)
    ensures
        r@ == trim_parens(s@),
{
    let n = s.unicode_len();
    let mut i: usize = 0;
    while i < n && (s.get_char(i) == '(' || s.get_char(i) == ')')
        invariant
            n == s@.len(),
            i <= n,
            forall|k: int| 0 <= k < i ==> is_paren(#[trigger] s@[k]),
        decreases n - i,
    {
        i = i + 1;
    }
    proof {
        lemma_trim_parens_start_from(s@, i as int);
    }
    let mut j: usize = n;
    while j > i && (s.get_char(j - 1) == '(' || s.get_char(j - 1) == ')')
        invariant
            n == s@.len(),
            i <= j <= n,
            forall|k: int| j <= k < n ==> is_paren(#[trigger] s@[k]),
        decreases j,
    {
        j = j - 1;
    }
    let ghost t = s@.subrange(i as int, n as int);
    proof {
        if i < n {
            assert(!is_paren(t[0]));
        }
        assert(trim_parens_start(t) == t);
        lemma_trim_parens_end_to(t, j - i);
        assert(t.subrange(0, j - i) =~= s@.subrange(i as int, j as int));
        let u = s@.subrange(i as int, j as int);
        if j > i {
            assert(!is_paren(u.last()));
        }
        assert(trim_parens_end(u) == u);
    }
    s.substring_char(i, j).to_owned()
}

fn region_name_exec(china: bool) -> (r: String)
    ensures
        r@ == region_name(china),
{
    if china {
        String::from_str("china")
    } else {
        String::from_str("global")
    }
}

fn flavour_name_exec(index: usize) -> (r: String)
    ensures
        r@ == flavour_name(index as int),
{
    if index == 0 {
        String::from_str("classic era")
    } else if index == 1 {
        String::from_str("classic")
    } else if index == 2 {
        String::from_str("retail")
    } else {
        String::new()
    }
}

/// The download link that a link element with the trimmed text `text` and
/// the target `href` stands for, if it is one.
pub fn link_from(text: &str, href: &Option<String>) -> (r: Option<ImorphEntry>)
    ensures
        match link_of(text@, match href {
            Some(h) => Some(h@),
            None => None,
        }) {
            None => r is None,
            Some(l) => r matches Some(e) && link_view(e) == l,
        },
{
    let caps = captures("iMorph - ([\\d\\.]+) ?(\\(.*\\))? \\[([\\d\\.]+)\\]", text);
    let c = match &caps {
        Some(c) => c,
        None => {
            return None;
        },
    };
    let tool = group_at(c, 1);
    let target = group_at(c, 3);
    match (tool, target, href) {
        (Some(tool), Some(target), Some(url)) => {
            let feature = match group_at(c, 2) {
                Some(v) => {
                    let mut name = String::from_str("iMorph ");
                    let inner = trim_parens_text(v.as_str());
                    name.append(inner.as_str());
                    name
                },
                None => String::from_str("iMorph"),
            };
            Some(ImorphEntry { feature, wow_version: target, imorph_version: tool, url: url.clone() })
        },
        _ => None,
    }
}

fn region_count_exec(groups: &Vec<DownloadGroup>, region: &str) -> (r: usize)
    ensures
        r == region_count(groups_view(groups@), region@),
{
    let ghost gv = groups_view(groups@);
    let mut count: usize = 0;
    let mut i: usize = 0;
    while i < groups.len()
        invariant
            i <= groups@.len(),
            gv == groups_view(groups@),
            count == region_count(gv.subrange(0, i as int), region@),
            count <= i,
        decreases groups@.len() - i,
    {
        assert(gv.subrange(0, i + 1).drop_last() =~= gv.subrange(0, i as int));
        if text_eq(groups[i].region.as_str(), region) {
            count = count + 1;
        }
        i = i + 1;
    }
    assert(gv.subrange(0, gv.len() as int) =~= gv);
    count
}

fn put_group_exec(
    groups: &mut Vec<DownloadGroup>,
    region: String,
    flavour: String,
    links: Vec<ImorphEntry>,
)
    ensures
        groups_view(final(groups)@) == put_group(
            groups_view(old(groups)@),
            region@,
            flavour@,
            links_view(links@),
        ),
{
    let ghost gv = groups_view(groups@);
    let mut i: usize = 0;
    while i < groups.len()
        invariant
            i <= groups@.len(),
            groups@ == old(groups)@,
            gv == groups_view(groups@),
            group_position(gv, region@, flavour@, 0) == group_position(
                gv,
                region@,
                flavour@,
                i as int,
            ),
        decreases groups@.len() - i,
    {
        if text_eq(groups[i].region.as_str(), region.as_str()) && text_eq(
            groups[i].version.as_str(),
            flavour.as_str(),
        ) {
            assert(group_position(gv, region@, flavour@, i as int) == Some(i as int));
            let ghost newg = (region@, flavour@, links_view(links@));
            groups.set(i, DownloadGroup { region, version: flavour, entries: links });
            assert(groups_view(groups@) =~= gv.update(i as int, newg));
            return;
        }
        i = i + 1;
    }
    let ghost lv = links_view(links@);
    groups.push(DownloadGroup { region, version: flavour, entries: links });
    assert(groups_view(groups@) =~= gv.push((region@, flavour@, lv)));
}

/// Once the list has ended, reading further elements changes nothing.
proof fn lemma_stopped_stays(els: Seq<ElementView>, k: int)
    requires
        0 <= k <= els.len(),
        scan(els.subrange(0, k)).stopped,
    ensures
        scan(els) == scan(els.subrange(0, k)),
    decreases els.len() - k,
{
    if k < els.len() {
        assert(els.subrange(0, k + 1).drop_last() =~= els.subrange(0, k));
        lemma_stopped_stays(els, k + 1);
    } else {
        assert(els.subrange(0, k) =~= els);
    }
}

pub open spec fn elements_view(v: Seq<PostElement>) -> Seq<ElementView> {
    v.map_values(|e: PostElement| element_view(e))
}

/// The groups of download links that the post's top-level elements `els`
/// hold, each under its region and flavour.
pub fn get_ownedcore_download_links(els: &Vec<PostElement>) -> (r: Vec<DownloadGroup>)
    ensures
        groups_view(r@) == scan(elements_view(els@)).groups,
{
    let ghost ev = elements_view(els@);
    let mut china = false;
    let mut index: usize = 0;
    let mut pending: Vec<ImorphEntry> = Vec::new();
    let mut groups: Vec<DownloadGroup> = Vec::new();
    let mut k: usize = 0;
    assert(links_view(pending@) =~= Seq::<LinkView>::empty());
    assert(groups_view(groups@) =~= Seq::<GroupView>::empty());
    assert(ev.subrange(0, 0) =~= Seq::<ElementView>::empty());
    while k < els.len()
        invariant
            k <= els@.len(),
            ev == elements_view(els@),
            index <= k,
            scan(ev.subrange(0, k as int)) == (ScanView {
                stopped: false,
                china,
                index: index as int,
                pending: links_view(pending@),
                groups: groups_view(groups@),
            }),
        decreases els@.len() - k,
    {
        let ghost before = scan(ev.subrange(0, k as int));
        assert(ev.subrange(0, k + 1).drop_last() =~= ev.subrange(0, k as int));
        let el = &els[k];
        assert(ev[k as int] == element_view(*el));
        let text = trim_text(el.text.as_str());
        if text_eq(el.tag.as_str(), "b") {
            if contains_text_exec(text.as_str(), "Archive:") {
                proof {
                    lemma_stopped_stays(ev, k + 1);
                }
                return groups;
            }
        } else if text_eq(el.tag.as_str(), "a") {
            match link_from(text.as_str(), &el.href) {
                None => {},
                Some(link) => {
                    let ghost p = links_view(pending@).push(link_view(link));
                    pending.push(link);
                    assert(links_view(pending@) =~= p);
                    if pending.len() == 3 {
                        let region = region_name_exec(china);
                        let flavour = flavour_name_exec(index);
                        let mut full: Vec<ImorphEntry> = Vec::new();
                        std::mem::swap(&mut pending, &mut full);
                        put_group_exec(&mut groups, region, flavour, full);
                        let region = region_name_exec(china);
                        assert(links_view(pending@) =~= Seq::<LinkView>::empty());
                        if region_count_exec(&groups, region.as_str()) == 3 {
                            china = true;
                            index = 0;
                        } else {
                            index = index + 1;
                        }
                    }
                },
            }
        }
        k = k + 1;
    }
    assert(ev.subrange(0, ev.len() as int) =~= ev);
    groups
}

} // verus!
