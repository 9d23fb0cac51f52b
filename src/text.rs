//! Character-level helpers: whitespace, trimming and line splitting, each
//! stated over `Seq<char>`.
use vstd::prelude::*;

verus! {

broadcast use vstd::string::group_string_axioms;

/// Unicode `White_Space`: what `str::trim` strips and what `\s` matches.
pub open spec fn is_ws(c: char) -> bool {
    ('\u{9}' <= c && c <= '\u{d}') || c == ' ' || c == '\u{85}' || c == '\u{a0}'
        || c == '\u{1680}' || ('\u{2000}' <= c && c <= '\u{200a}') || c == '\u{2028}'
        || c == '\u{2029}' || c == '\u{202f}' || c == '\u{205f}' || c == '\u{3000}'
}

pub fn char_is_ws(c: char) -> (r: bool)
    ensures
        r == is_ws(c),
{
    ('\u{9}' <= c && c <= '\u{d}') || c == ' ' || c == '\u{85}' || c == '\u{a0}'
        || c == '\u{1680}' || ('\u{2000}' <= c && c <= '\u{200a}') || c == '\u{2028}'
        || c == '\u{2029}' || c == '\u{202f}' || c == '\u{205f}' || c == '\u{3000}'
}

/// `s` without its leading whitespace.
pub open spec fn trim_start(s: Seq<char>) -> Seq<char>
    decreases s.len(),
{
    if s.len() > 0 && is_ws(s[0]) {
        trim_start(s.drop_first())
    } else {
        s
    }
}

/// `s` without its trailing whitespace.
pub open spec fn trim_end(s: Seq<char>) -> Seq<char>
    decreases s.len(),
{
    if s.len() > 0 && is_ws(s.last()) {
        trim_end(s.drop_last())
    } else {
        s
    }
}

/// `s` without leading and trailing whitespace.
pub open spec fn trim(s: Seq<char>) -> Seq<char> {
    trim_end(trim_start(s))
}

pub proof fn lemma_trim_start_at(s: Seq<char>, i: int)
    requires
        0 <= i <= s.len(),
        forall|k: int| 0 <= k < i ==> is_ws(#[trigger] s[k]),
        i == s.len() || !is_ws(s[i]),
    ensures
        trim_start(s) == s.skip(i),
    decreases i,
{
    if i > 0 {
        assert forall|k: int| 0 <= k < i - 1 implies is_ws(#[trigger] s.drop_first()[k]) by {
            assert(is_ws(s[k + 1]));
        }
        lemma_trim_start_at(s.drop_first(), i - 1);
        assert(s.drop_first().skip(i - 1) =~= s.skip(i));
    } else {
        assert(s.skip(0) =~= s);
    }
}

pub proof fn lemma_trim_end_at(s: Seq<char>, j: int)
    requires
        0 <= j <= s.len(),
        forall|k: int| j <= k < s.len() ==> is_ws(#[trigger] s[k]),
        j == 0 || !is_ws(s[j - 1]),
    ensures
        trim_end(s) == s.take(j),
    decreases s.len() - j,
{
    if j < s.len() {
        assert forall|k: int| j <= k < s.len() - 1 implies is_ws(#[trigger] s.drop_last()[k]) by {
            assert(is_ws(s[k]));
        }
        lemma_trim_end_at(s.drop_last(), j);
        assert(s.drop_last().take(j) =~= s.take(j));
    } else {
        assert(s.take(j) =~= s);
    }
}

/// Bounds of the trimmed part of `cs[a..b]`.
pub fn trim_bounds(cs: &Vec<char>, a: usize, b: usize) -> (r: (usize, usize))
    requires
        a <= b <= cs@.len(),
    ensures
        a <= r.0 <= r.1 <= b,
        cs@.subrange(r.0 as int, r.1 as int) == trim(cs@.subrange(a as int, b as int)),
{
    let mut i: usize = a;
    while i < b && char_is_ws(cs[i])
        invariant
            a <= i <= b <= cs@.len(),
            forall|k: int| a <= k < i ==> is_ws(#[trigger] cs@[k]),
        decreases b - i,
    {
        i = i + 1;
    }
    let mut j: usize = b;
    while j > i && char_is_ws(cs[j - 1])
        invariant
            a <= i <= j <= b <= cs@.len(),
            forall|k: int| j <= k < b ==> is_ws(#[trigger] cs@[k]),
        decreases j - i,
    {
        j = j - 1;
    }
    proof {
        let s = cs@.subrange(a as int, b as int);
        lemma_trim_start_at(s, i - a);
        assert(s.skip(i - a) =~= cs@.subrange(i as int, b as int));
        let t = cs@.subrange(i as int, b as int);
        lemma_trim_end_at(t, j - i);
        assert(t.take(j - i) =~= cs@.subrange(i as int, j as int));
    }
    (i, j)
}

/// The characters of `s`, in order.
pub fn chars_of(s: &str) -> (r: Vec<char>)
    ensures
        r@ == s@,
{
    let mut v: Vec<char> = Vec::new();
    for c in it: s.chars()
        invariant
            v@ == it.seq().take(it.index() as int),
    {
        v.push(c);
    }
    v
}

} // verus!

verus! {

/// Whether `cs[a..b]` spells `lit`.
pub fn range_is(cs: &Vec<char>, a: usize, b: usize, lit: &str) -> (r: bool)
    requires
        a <= b <= cs@.len(),
    ensures
        r == (cs@.subrange(a as int, b as int) == lit@),
{
    let n = lit.unicode_len();
    if b - a != n {
        return false;
    }
    let mut k: usize = 0;
    while k < n
        invariant
            n == lit@.len(),
            b - a == n,
            a <= b <= cs@.len(),
            k <= n,
            forall|j: int| 0 <= j < k ==> cs@[a + j] == lit@[j],
        decreases n - k,
    {
        if cs[a + k] != lit.get_char(k) {
            assert(cs@.subrange(a as int, b as int)[k as int] != lit@[k as int]);
            return false;
        }
        k = k + 1;
    }
    assert(cs@.subrange(a as int, b as int) =~= lit@);
    true
}

} // verus!

verus! {

/// Index of the first occurrence of `c0` followed by `c1`, at or after `i`.
pub open spec fn find_pair_from(s: Seq<char>, c0: char, c1: char, i: int) -> Option<int>
    decreases s.len() - i,
{
    if i < 0 || i + 1 >= s.len() {
        None
    } else if s[i] == c0 && s[i + 1] == c1 {
        Some(i)
    } else {
        find_pair_from(s, c0, c1, i + 1)
    }
}

pub open spec fn find_pair(s: Seq<char>, c0: char, c1: char) -> Option<int> {
    find_pair_from(s, c0, c1, 0)
}

/// `s` cut around the first `c0 c1`, which belongs to neither part.
pub open spec fn split_once(s: Seq<char>, c0: char, c1: char) -> Option<(Seq<char>, Seq<char>)> {
    match find_pair(s, c0, c1) {
        Some(i) => Some((s.take(i), s.skip(i + 2))),
        None => None,
    }
}

pub open spec fn ends_with(s: Seq<char>, suffix: Seq<char>) -> bool {
    s.len() >= suffix.len() && s.skip(s.len() - suffix.len()) == suffix
}

/// Exec form of `find_pair` on a character vector.
pub fn find_pair_in(cs: &Vec<char>, c0: char, c1: char) -> (r: Option<usize>)
    ensures
        match r {
            Some(i) => find_pair(cs@, c0, c1) == Some(i as int) && i + 1 < cs@.len(),
            None => find_pair(cs@, c0, c1) is None,
        },
{
    let mut i: usize = 0;
    while cs.len() > 1 && i < cs.len() - 1
        invariant
            i <= cs@.len(),
            find_pair(cs@, c0, c1) == find_pair_from(cs@, c0, c1, i as int),
        decreases cs@.len() - i,
    {
        if cs[i] == c0 && cs[i + 1] == c1 {
            return Some(i);
        }
        i = i + 1;
    }
    None
}

/// Exec form of `ends_with` against a literal.
pub fn ends_with_lit(cs: &Vec<char>, suffix: &str) -> (r: bool)
    ensures
        r == ends_with(cs@, suffix@),
{
    let m = suffix.unicode_len();
    if cs.len() < m {
        return false;
    }
    let n = cs.len();
    let r = range_is(cs, n - m, n, suffix);
    assert(cs@.skip(n - m) =~= cs@.subrange(n - m, n as int));
    r
}

} // verus!
