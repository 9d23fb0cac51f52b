//! The line preprocessor: from raw text to the trimmed, non-blank lines that
//! lie between the opening line and the first body-start terminator.
use vstd::prelude::*;
use crate::text::{range_is, trim, trim_bounds};

verus! {

broadcast use vstd::string::group_string_axioms;

/// `s` cut at every `'\n'`; always at least one (possibly empty) piece.
pub open spec fn split_lines(s: Seq<char>) -> Seq<Seq<char>>
    decreases s.len(),
{
    if s.len() == 0 {
        seq![Seq::<char>::empty()]
    } else {
        let p = split_lines(s.drop_last());
        if s.last() == '\n' {
            p.push(Seq::<char>::empty())
        } else {
            p.update(p.len() - 1, p.last().push(s.last()))
        }
    }
}

/// Each line trimmed, blank ones dropped, order kept.
pub open spec fn clean(ls: Seq<Seq<char>>) -> Seq<Seq<char>>
    decreases ls.len(),
{
    if ls.len() == 0 {
        Seq::<Seq<char>>::empty()
    } else {
        let p = clean(ls.drop_last());
        let t = trim(ls.last());
        if t.len() > 0 {
            p.push(t)
        } else {
            p
        }
    }
}

/// The trimmed, non-blank lines of `text`.
pub open spec fn nonblank_lines(text: Seq<char>) -> Seq<Seq<char>> {
    clean(split_lines(trim(text)))
}

/// One of the three lines that open a function's body.
pub open spec fn is_terminator(l: Seq<char>) -> bool {
    l == ") {"@ || l == ") => {"@ || l == ") => ("@
}

/// Index of the first terminator at or after `i`.
pub open spec fn terminator_from(ls: Seq<Seq<char>>, i: int) -> Option<int>
    decreases ls.len() - i,
{
    if i < 0 || i >= ls.len() {
        None
    } else if is_terminator(ls[i]) {
        Some(i)
    } else {
        terminator_from(ls, i + 1)
    }
}

/// The lines that carry metadata: those after the opening line and before
/// the first terminator. Absent with fewer than three non-blank lines, or
/// where no line after the first is a terminator.
pub open spec fn body_lines(text: Seq<char>) -> Option<Seq<Seq<char>>> {
    let ls = nonblank_lines(text);
    if ls.len() < 3 {
        None
    } else {
        match terminator_from(ls, 1) {
            Some(i) => Some(ls.subrange(1, i)),
            None => None,
        }
    }
}

/// The pieces of `cs` that the index ranges `rs` delimit.
pub open spec fn spans(cs: Seq<char>, rs: Seq<(usize, usize)>) -> Seq<Seq<char>> {
    rs.map_values(|r: (usize, usize)| cs.subrange(r.0 as int, r.1 as int))
}

pub open spec fn ranges_within(rs: Seq<(usize, usize)>, lo: int, hi: int) -> bool {
    forall|k: int| 0 <= k < rs.len() ==> lo <= (#[trigger] rs[k]).0 <= rs[k].1 <= hi
}

pub proof fn lemma_terminator_none(ls: Seq<Seq<char>>, i: int)
    requires
        0 <= i,
        forall|k: int| i <= k < ls.len() ==> !is_terminator(#[trigger] ls[k]),
    ensures
        terminator_from(ls, i) is None,
    decreases ls.len() - i,
{
    if i < ls.len() {
        lemma_terminator_none(ls, i + 1);
    }
}

/// Ranges of the pieces of `cs[a..b]` between line breaks.
fn split_ranges(cs: &Vec<char>, a: usize, b: usize) -> (r: Vec<(usize, usize)>)
    requires
        a <= b <= cs@.len(),
    ensures
        ranges_within(r@, a as int, b as int),
        spans(cs@, r@) == split_lines(cs@.subrange(a as int, b as int)),
{
    let mut out: Vec<(usize, usize)> = Vec::new();
    let mut start: usize = a;
    let mut i: usize = a;
    assert(spans(cs@, out@) =~= Seq::<Seq<char>>::empty());
    assert(cs@.subrange(a as int, a as int) =~= Seq::<char>::empty());
    assert(spans(cs@, out@).push(cs@.subrange(a as int, a as int)) =~= split_lines(
        cs@.subrange(a as int, a as int),
    ));
    while i < b
        invariant
            a <= start <= i <= b <= cs@.len(),
            ranges_within(out@, a as int, i as int),
            split_lines(cs@.subrange(a as int, i as int)) == spans(cs@, out@).push(
                cs@.subrange(start as int, i as int),
            ),
        decreases b - i,
    {
        let ghost prev = cs@.subrange(a as int, i as int);
        let ghost next = cs@.subrange(a as int, i + 1);
        assert(next.drop_last() =~= prev);
        if cs[i] == '\n' {
            let ghost before = spans(cs@, out@);
            out.push((start, i));
            assert(spans(cs@, out@) =~= before.push(cs@.subrange(start as int, i as int)));
            start = i + 1;
            assert(cs@.subrange(start as int, i + 1) =~= Seq::<char>::empty());
        } else {
            assert(cs@.subrange(start as int, i + 1) =~= cs@.subrange(start as int, i as int).push(
                cs@[i as int],
            ));
        }
        i = i + 1;
        assert(split_lines(cs@.subrange(a as int, i as int)) =~= spans(cs@, out@).push(
            cs@.subrange(start as int, i as int),
        ));
    }
    out.push((start, b));
    assert(spans(cs@, out@) =~= split_lines(cs@.subrange(a as int, b as int)));
    out
}

/// Ranges of the trimmed, non-blank pieces among `rs`, in order.
fn clean_ranges(cs: &Vec<char>, rs: &Vec<(usize, usize)>) -> (r: Vec<(usize, usize)>)
    requires
        ranges_within(rs@, 0, cs@.len() as int),
    ensures
        ranges_within(r@, 0, cs@.len() as int),
        spans(cs@, r@) == clean(spans(cs@, rs@)),
{
    let mut out: Vec<(usize, usize)> = Vec::new();
    let mut i: usize = 0;
    while i < rs.len()
        invariant
            i <= rs@.len(),
            ranges_within(rs@, 0, cs@.len() as int),
            ranges_within(out@, 0, cs@.len() as int),
            spans(cs@, out@) == clean(spans(cs@, rs@).take(i as int)),
        decreases rs@.len() - i,
    {
        let ghost before = spans(cs@, out@);
        assert(spans(cs@, rs@).take(i + 1).drop_last() =~= spans(cs@, rs@).take(i as int));
        let (a, b) = rs[i];
        let (p, q) = trim_bounds(cs, a, b);
        if p < q {
            out.push((p, q));
            assert(spans(cs@, out@) =~= before.push(cs@.subrange(p as int, q as int)));
        }
        i = i + 1;
    }
    assert(spans(cs@, rs@).take(rs@.len() as int) =~= spans(cs@, rs@));
    out
}

/// Ranges of the lines of `text` (whose characters are `cs`) that carry
/// metadata, as `body_lines` gives them.
pub fn body_ranges(text: &str, cs: &Vec<char>) -> (r: Option<Vec<(usize, usize)>>)
    requires
        cs@ == text@,
    ensures
        r is None <==> body_lines(text@) is None,
        r is Some ==> ranges_within(r->0@, 0, cs@.len() as int) && spans(cs@, r->0@)
            == body_lines(text@)->0,
{
    let (a, b) = trim_bounds(cs, 0, cs.len());
    assert(cs@.subrange(0, cs@.len() as int) =~= cs@);
    let pieces = split_ranges(cs, a, b);
    let ls = clean_ranges(cs, &pieces);
    let ghost lv = spans(cs@, ls@);
    assert(lv == nonblank_lines(text@));
    if ls.len() < 3 {
        return None;
    }
    let mut i: usize = 1;
    while i < ls.len()
        invariant
            1 <= i <= ls@.len(),
            ls@.len() >= 3,
            lv == spans(cs@, ls@),
            lv == nonblank_lines(text@),
            ranges_within(ls@, 0, cs@.len() as int),
            terminator_from(lv, 1) == terminator_from(lv, i as int),
        decreases ls@.len() - i,
    {
        let (p, q) = ls[i];
        assert(lv[i as int] == cs@.subrange(p as int, q as int));
        if range_is(cs, p, q, ") {") || range_is(cs, p, q, ") => {") || range_is(cs, p, q, ") => (") {
            let mut out: Vec<(usize, usize)> = Vec::new();
            let mut k: usize = 1;
            while k < i
                invariant
                    1 <= k <= i < ls@.len(),
                    ranges_within(ls@, 0, cs@.len() as int),
                    out@ =~= ls@.subrange(1, k as int),
                decreases i - k,
            {
                out.push(ls[k]);
                k = k + 1;
            }
            assert(is_terminator(lv[i as int]));
            assert(terminator_from(lv, i as int) == Some(i as int));
            assert(spans(cs@, out@) =~= lv.subrange(1, i as int));
            assert(body_lines(text@) == Some(lv.subrange(1, i as int)));
            assert(ranges_within(out@, 0, cs@.len() as int));
            return Some(out);
        }
        i = i + 1;
    }
    assert(terminator_from(lv, i as int) is None);
    None
}

} // verus!
