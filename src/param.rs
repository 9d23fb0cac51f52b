//! The parameter-line grammar `name[,][ // comment]`, with the type-hint rule
//! for the inline comment.
use vstd::prelude::*;
use crate::text::{
    char_is_ws, chars_of, find_pair_in, is_ws, lemma_trim_start_at, range_is, split_once,
    trim_start,
};
use crate::types::{param_opt_view, FnParameter, ParamView};

verus! {

broadcast use vstd::string::group_string_axioms;

pub open spec fn no_newline(s: Seq<char>) -> bool {
    forall|k: int| 0 <= k < s.len() ==> s[k] != '\n'
}

/// The fourteen type names that an inline comment may start with.
pub open spec fn is_type_name(s: Seq<char>) -> bool {
    s == "string"@ || s == "number"@ || s == "boolean"@ || s == "undefined"@ || s == "function"@
        || s == "array"@ || s == "object"@ || s == "null"@ || s == "symbol"@ || s == "char"@
        || s == "hash"@ || s == "record"@ || s == "set"@ || s == "map"@
}

/// Where `r` is optional whitespace, `//`, optional whitespace and then text
/// without line breaks: that text.
pub open spec fn after_marker(r: Seq<char>) -> Option<Seq<char>> {
    let t = trim_start(r);
    if t.len() >= 2 && t[0] == '/' && t[1] == '/' && no_newline(trim_start(t.skip(2))) {
        Some(trim_start(t.skip(2)))
    } else {
        None
    }
}

/// How the rest of a line after the name matches `,?(\s*//\s*(.*?))?$`:
/// absent if it does not; else the inline comment it captures, if any. The
/// comma is taken first, and the comment before the empty alternative.
pub open spec fn tail_match(r: Seq<char>) -> Option<Option<Seq<char>>> {
    if r.len() > 0 && r[0] == ',' && after_marker(r.drop_first()) is Some {
        Some(after_marker(r.drop_first()))
    } else if r == seq![','] {
        Some(None)
    } else if after_marker(r) is Some {
        Some(after_marker(r))
    } else if r.len() == 0 {
        Some(None)
    } else {
        None
    }
}

/// A name may end at `k`: it is not empty, holds no line break, and the rest matches.
pub open spec fn name_ends_at(l: Seq<char>, k: int) -> bool {
    1 <= k <= l.len() && no_newline(l.take(k)) && tail_match(l.skip(k)) is Some
}

/// The shortest name length from `k` on.
pub open spec fn name_end_from(l: Seq<char>, k: int) -> Option<int>
    decreases l.len() + 1 - k,
{
    if k < 1 || k > l.len() {
        None
    } else if name_ends_at(l, k) {
        Some(k)
    } else {
        name_end_from(l, k + 1)
    }
}

/// The parameter made of a name and an optional inline comment: a type hint
/// is taken only when the part before the first `", "` is a type name.
pub open spec fn param_from(name: Seq<char>, inline: Option<Seq<char>>) -> ParamView {
    match inline {
        None => ParamView { name: name, type_hint: None, comment: None },
        Some(c) => match split_once(c, ',', ' ') {
            Some((left, right)) if is_type_name(left) => ParamView {
                name: name,
                type_hint: Some(left),
                comment: Some(right),
            },
            _ => ParamView { name: name, type_hint: None, comment: Some(c) },
        },
    }
}

/// The inline comment that the grammar captures on a line, if any.
pub open spec fn inline_comment(l: Seq<char>) -> Option<Seq<char>> {
    match name_end_from(l, 1) {
        Some(k) => tail_match(l.skip(k))->0,
        None => None,
    }
}

/// The parameter that a declaration line gives, if the grammar matches it.
pub open spec fn parse_param(l: Seq<char>) -> Option<ParamView> {
    match name_end_from(l, 1) {
        Some(k) => Some(param_from(l.take(k), tail_match(l.skip(k))->0)),
        None => None,
    }
}

pub proof fn lemma_name_end_none(l: Seq<char>, k: int)
    requires
        1 <= k,
        forall|j: int| k <= j <= l.len() ==> !name_ends_at(l, j),
    ensures
        name_end_from(l, k) is None,
    decreases l.len() + 1 - k,
{
    if k <= l.len() {
        lemma_name_end_none(l, k + 1);
    }
}

pub proof fn lemma_name_end_some(l: Seq<char>, k: int)
    requires
        1 <= k <= l.len(),
        name_ends_at(l, l.len() as int),
    ensures
        name_end_from(l, k) is Some,
    decreases l.len() - k,
{
    if !name_ends_at(l, k) {
        lemma_name_end_some(l, k + 1);
    }
}

/// Every non-empty line without a line break matches the grammar.
pub proof fn lemma_line_parses(l: Seq<char>)
    requires
        l.len() > 0,
        no_newline(l),
    ensures
        parse_param(l) is Some,
{
    assert(l.take(l.len() as int) =~= l);
    assert(l.skip(l.len() as int) =~= Seq::<char>::empty());
    assert(trim_start(Seq::<char>::empty()) == Seq::<char>::empty());
    lemma_name_end_some(l, 1);
}

/// Exec form of `is_type_name`.
fn names_a_type(s: &str) -> (r: bool)
    ensures
        r == is_type_name(s@),
{
    let cs = chars_of(s);
    let n = cs.len();
    assert(cs@.subrange(0, n as int) =~= s@);
    range_is(&cs, 0, n, "string") || range_is(&cs, 0, n, "number") || range_is(&cs, 0, n, "boolean")
        || range_is(&cs, 0, n, "undefined") || range_is(&cs, 0, n, "function") || range_is(
        &cs,
        0,
        n,
        "array",
    ) || range_is(&cs, 0, n, "object") || range_is(&cs, 0, n, "null") || range_is(
        &cs,
        0,
        n,
        "symbol",
    ) || range_is(&cs, 0, n, "char") || range_is(&cs, 0, n, "hash") || range_is(
        &cs,
        0,
        n,
        "record",
    ) || range_is(&cs, 0, n, "set") || range_is(&cs, 0, n, "map")
}

/// First index at or after `p` that is not whitespace.
fn skip_ws(cs: &Vec<char>, p: usize) -> (q: usize)
    requires
        p <= cs@.len(),
    ensures
        p <= q <= cs@.len(),
        trim_start(cs@.skip(p as int)) == cs@.skip(q as int),
{
    let mut q: usize = p;
    while q < cs.len() && char_is_ws(cs[q])
        invariant
            p <= q <= cs@.len(),
            forall|k: int| p <= k < q ==> is_ws(#[trigger] cs@[k]),
        decreases cs@.len() - q,
    {
        q = q + 1;
    }
    proof {
        let s = cs@.skip(p as int);
        assert forall|k: int| 0 <= k < q - p implies is_ws(#[trigger] s[k]) by {
            assert(is_ws(cs@[p + k]));
        }
        lemma_trim_start_at(s, q - p);
        assert(s.skip(q - p) =~= cs@.skip(q as int));
    }
    q
}

/// Where `after_marker(cs[p..])` is present: the index it starts at. `clear`
/// is the first index after the last line break.
fn marker_at(cs: &Vec<char>, p: usize, clear: usize) -> (r: Option<usize>)
    requires
        p <= cs@.len(),
        clear <= cs@.len(),
        no_newline(cs@.skip(clear as int)),
        clear == 0 || cs@[clear - 1] == '\n',
    ensures
        match r {
            Some(g) => p <= g <= cs@.len() && after_marker(cs@.skip(p as int)) == Some(
                cs@.skip(g as int),
            ),
            None => after_marker(cs@.skip(p as int)) is None,
        },
{
    let q = skip_ws(cs, p);
    if q < cs.len() && cs.len() - q >= 2 && cs[q] == '/' && cs[q + 1] == '/' {
        let g = skip_ws(cs, q + 2);
        assert(cs@.skip(q as int).skip(2) =~= cs@.skip(q + 2));
        if g >= clear {
            assert forall|k: int| 0 <= k < cs@.skip(g as int).len() implies cs@.skip(
                g as int,
            )[k] != '\n' by {
                assert(cs@.skip(g as int)[k] == cs@.skip(clear as int)[g - clear + k]);
            }
            Some(g)
        } else {
            assert(cs@.skip(g as int)[clear - 1 - g] == '\n');
            None
        }
    } else {
        None
    }
}

/// The parameter for a name and an optional inline comment.
fn build_parameter(name: &str, inline: Option<&str>) -> (r: FnParameter)
    ensures
        r@ == param_from(
            name@,
            match inline {
                Some(c) => Some(c@),
                None => None,
            },
        ),
{
    match inline {
        None => FnParameter { name: String::from_str(name), _type: None, comment: None },
        Some(c) => {
            let cs = chars_of(c);
            let n = cs.len();
            if let Some(i) = find_pair_in(&cs, ',', ' ') {
                let left = c.substring_char(0, i);
                assert(left@ == c@.take(i as int));
                if names_a_type(left) {
                    let right = c.substring_char(i + 2, n);
                    assert(right@ == c@.skip(i + 2));
                    return FnParameter {
                        name: String::from_str(name),
                        _type: Some(String::from_str(left)),
                        comment: Some(String::from_str(right)),
                    };
                }
            }
            FnParameter {
                name: String::from_str(name),
                _type: None,
                comment: Some(String::from_str(c)),
            }
        },
    }
}

/// Parses one declaration line into a name, an optional type hint and an
/// optional comment.
pub fn try_parse_fn_parameter(line: &str) -> (r: Option<FnParameter>)
    ensures
        param_opt_view(r) == parse_param(line@),
        line@.len() > 0 && no_newline(line@) ==> r is Some,
        r is Some ==> (r->0._type is Some <==> match inline_comment(line@) {
            Some(c) => match split_once(c, ',', ' ') {
                Some((left, _)) => is_type_name(left),
                None => false,
            },
            None => false,
        }),
{
    let cs = chars_of(line);
    let n = cs.len();
    let ghost l = line@;
    let mut clear: usize = n;
    while clear > 0 && cs[clear - 1] != '\n'
        invariant
            clear <= n == cs@.len(),
            l == cs@,
            forall|k: int| clear <= k < n ==> cs@[k] != '\n',
        decreases clear,
    {
        clear = clear - 1;
    }
    assert forall|k: int| 0 <= k < cs@.skip(clear as int).len() implies cs@.skip(
        clear as int,
    )[k] != '\n' by {
        assert(cs@.skip(clear as int)[k] == cs@[clear + k]);
    }
    let mut k: usize = 1;
    while k <= n
        invariant
            1 <= k,
            n == cs@.len(),
            l == cs@,
            l == line@,
            clear <= n,
            no_newline(cs@.skip(clear as int)),
            clear == 0 || cs@[clear - 1] == '\n',
            no_newline(l.take(k - 1)),
            name_end_from(l, 1) == name_end_from(l, k as int),
        decreases n + 1 - k,
    {
        if cs[k - 1] == '\n' {
            proof {
                assert forall|j: int| k <= j <= l.len() implies !name_ends_at(l, j) by {
                    assert(l.take(j)[k - 1] == '\n');
                }
                lemma_name_end_none(l, k as int);
            }
            return None;
        }
        assert(no_newline(l.take(k as int))) by {
            assert forall|j: int| 0 <= j < k implies l.take(k as int)[j] != '\n' by {
                if j < k - 1 {
                    assert(l.take(k - 1)[j] == l[j]);
                }
            }
        }
        let ghost r = l.skip(k as int);
        let mut found: Option<Option<usize>> = None;
        if k < n && cs[k] == ',' {
            let m = marker_at(&cs, k + 1, clear);
            assert(r.drop_first() =~= cs@.skip(k + 1));
            if let Some(g) = m {
                found = Some(Some(g));
            } else if k + 1 == n {
                assert(r =~= seq![',']);
                found = Some(None);
            }
        }
        if found.is_none() {
            if k < n && cs[k] == ',' {
                // a leading comma rules out a comment without it
                assert(trim_start(r) == r);
            } else {
                let m = marker_at(&cs, k, clear);
                if let Some(g) = m {
                    found = Some(Some(g));
                } else if k == n {
                    assert(r =~= Seq::<char>::empty());
                    found = Some(None);
                }
            }
        }
        match found {
            Some(g) => {
                assert(name_ends_at(l, k as int));
                let name = line.substring_char(0, k);
                assert(name@ == l.take(k as int));
                let p = match g {
                    Some(g) => {
                        let c = line.substring_char(g, n);
                        assert(c@ =~= l.skip(g as int));
                        build_parameter(name, Some(c))
                    },
                    None => build_parameter(name, None),
                };
                proof {
                    if l.len() > 0 && no_newline(l) {
                        lemma_line_parses(l);
                    }
                }
                return Some(p);
            },
            None => {
                assert(!name_ends_at(l, k as int));
            },
        }
        k = k + 1;
    }
    proof {
        lemma_name_end_none(l, k as int);
        if l.len() > 0 && no_newline(l) {
            lemma_line_parses(l);
        }
    }
    None
}

} // verus!
