//! Small text helpers over `str` and `String`, stated on their character
//! sequences.
use vstd::prelude::*;

verus! {

/// Whether two texts hold the same characters.
pub fn text_eq(a: &str, b: &str) -> (r: bool)
    ensures
        r == (a@ == b@),
{
    String::from_str(a) == String::from_str(b)
}

/// Unicode `White_Space`, the set that `char::is_whitespace` documents.
pub open spec fn is_white_space(c: char) -> bool {
    let u = c as u32;
    (0x09 <= u && u <= 0x0d) || u == 0x20 || u == 0x85 || u == 0xa0 || u == 0x1680 || (0x2000 <= u
        && u <= 0x200a) || u == 0x2028 || u == 0x2029 || u == 0x202f || u == 0x205f || u == 0x3000
}

pub fn is_white_space_exec(c: char) -> (r: bool)
    ensures
        r == is_white_space(c),
{
    let u = c as u32;
    (0x09 <= u && u <= 0x0d) || u == 0x20 || u == 0x85 || u == 0xa0 || u == 0x1680 || (0x2000 <= u
        && u <= 0x200a) || u == 0x2028 || u == 0x2029 || u == 0x202f || u == 0x205f || u == 0x3000
}

/// `s` without its leading white space.
pub open spec fn trim_start(s: Seq<char>) -> Seq<char>
    decreases s.len(),
{
    if s.len() > 0 && is_white_space(s[0]) {
        trim_start(s.drop_first())
    } else {
        s
    }
}

/// `s` without its trailing white space.
pub open spec fn trim_end(s: Seq<char>) -> Seq<char>
    decreases s.len(),
{
    if s.len() > 0 && is_white_space(s.last()) {
        trim_end(s.drop_last())
    } else {
        s
    }
}

/// `s` without white space at either end.
pub open spec fn trim(s: Seq<char>) -> Seq<char> {
    trim_end(trim_start(s))
}

proof fn lemma_trim_start_from(s: Seq<char>, i: int)
    requires
        0 <= i <= s.len(),
        forall|k: int| 0 <= k < i ==> is_white_space(#[trigger] s[k]),
    ensures
        trim_start(s) == trim_start(s.subrange(i, s.len() as int)),
    decreases i,
{
    if i > 0 {
        lemma_trim_start_from(s, i - 1);
        let t = s.subrange(i - 1, s.len() as int);
        assert(t.drop_first() =~= s.subrange(i, s.len() as int));
    } else {
        assert(s.subrange(0, s.len() as int) =~= s);
    }
}

proof fn lemma_trim_end_to(s: Seq<char>, j: int)
    requires
        0 <= j <= s.len(),
        forall|k: int| j <= k < s.len() ==> is_white_space(#[trigger] s[k]),
    ensures
        trim_end(s) == trim_end(s.subrange(0, j)),
    decreases s.len() - j,
{
    if j < s.len() {
        lemma_trim_end_to(s, j + 1);
        let t = s.subrange(0, j + 1);
        assert(t.drop_last() =~= s.subrange(0, j));
    } else {
        assert(s.subrange(0, s.len() as int) =~= s);
    }
}

/// `s` without white space at either end.
pub fn trim_text(s: &str) -> (r: String)
    ensures
        r@ == trim(s@),
{
    let n = s.unicode_len();
    let mut i: usize = 0;
    while i < n && is_white_space_exec(s.get_char(i))
        invariant
            n == s@.len(),
            i <= n,
            forall|k: int| 0 <= k < i ==> is_white_space(#[trigger] s@[k]),
        decreases n - i,
    {
        i = i + 1;
    }
    proof {
        lemma_trim_start_from(s@, i as int);
    }
    let mut j: usize = n;
    while j > i && is_white_space_exec(s.get_char(j - 1))
        invariant
            n == s@.len(),
            i <= j <= n,
            forall|k: int| j <= k < n ==> is_white_space(#[trigger] s@[k]),
        decreases j,
    {
        j = j - 1;
    }
    let ghost t = s@.subrange(i as int, n as int);
    proof {
        if i < n {
            assert(!is_white_space(t[0]));
        }
        assert(trim_start(t) == t);
        lemma_trim_end_to(t, j - i);
        assert(t.subrange(0, j - i) =~= s@.subrange(i as int, j as int));
        let u = s@.subrange(i as int, j as int);
        if j > i {
            assert(!is_white_space(u.last()));
        }
        assert(trim_end(u) == u);
    }
    s.substring_char(i, j).to_owned()
}

/// Index of the first `c` in `s` at or after `from`, if there is one.
pub open spec fn find_char_from(s: Seq<char>, c: char, from: int) -> Option<int>
    decreases s.len() - from,
{
    if from < 0 || from >= s.len() {
        None
    } else if s[from] == c {
        Some(from)
    } else {
        find_char_from(s, c, from + 1)
    }
}

pub open spec fn find_char(s: Seq<char>, c: char) -> Option<int> {
    find_char_from(s, c, 0)
}

pub proof fn lemma_find_char_found(s: Seq<char>, c: char, from: int)
    ensures
        find_char_from(s, c, from) matches Some(i) ==> from <= i < s.len() && s[i] == c,
    decreases s.len() - from,
{
    if 0 <= from < s.len() && s[from] != c {
        lemma_find_char_found(s, c, from + 1);
    }
}

/// Index of the first `c` in `s`, if there is one.
pub fn find_char_exec(s: &str, c: char) -> (r: Option<usize>)
    ensures
        r matches Some(i) ==> find_char(s@, c) == Some(i as int),
        r is None ==> find_char(s@, c) is None,
        r matches Some(i) ==> i < s@.len() && s@[i as int] == c,
{
    proof {
        lemma_find_char_found(s@, c, 0);
    }
    let n = s.unicode_len();
    let mut i: usize = 0;
    while i < n
        invariant
            n == s@.len(),
            i <= n,
            find_char(s@, c) == find_char_from(s@, c, i as int),
        decreases n - i,
    {
        if s.get_char(i) == c {
            return Some(i);
        }
        i = i + 1;
    }
    None
}

} // verus!
