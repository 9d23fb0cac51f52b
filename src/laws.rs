//! Properties that relate the parts of a parse, proved over the spec model.
use vstd::prelude::*;
use crate::comment::classify;
use crate::lines::body_lines;
use crate::param::parse_param;
use crate::signature::{assemble, introspect, is_comment_line, join, payload};
use crate::text::{is_ws, lemma_trim_end_at, lemma_trim_start_at, trim, trim_end, trim_start};
use crate::types::ParamView;

verus! {

/// What the declaration lines among `ls` parse to, in order.
pub open spec fn declared(ls: Seq<Seq<char>>) -> Seq<ParamView>
    decreases ls.len(),
{
    if ls.len() == 0 {
        Seq::<ParamView>::empty()
    } else {
        let p = declared(ls.drop_last());
        let l = ls.last();
        if !is_comment_line(l) && parse_param(l) is Some {
            p.push(parse_param(l)->0)
        } else {
            p
        }
    }
}

/// A comment line that the classifier reads as a tagged comment.
pub open spec fn is_tagged_line(l: Seq<char>) -> bool {
    is_comment_line(l) && classify(payload(l)) is Some
}

/// `ls` without its tagged comment lines.
pub open spec fn untagged(ls: Seq<Seq<char>>) -> Seq<Seq<char>>
    decreases ls.len(),
{
    if ls.len() == 0 {
        Seq::<Seq<char>>::empty()
    } else {
        let p = untagged(ls.drop_last());
        if is_tagged_line(ls.last()) {
            p
        } else {
            p.push(ls.last())
        }
    }
}

proof fn lemma_assemble_declared(ls: Seq<Seq<char>>)
    ensures
        assemble(ls).parameters.len() == declared(ls).len(),
        forall|k: int|
            0 <= k < declared(ls).len() ==> (#[trigger] assemble(ls).parameters[k]).name
                == declared(ls)[k].name && assemble(ls).parameters[k].type_hint == declared(
                ls,
            )[k].type_hint,
    decreases ls.len(),
{
    if ls.len() > 0 {
        lemma_assemble_declared(ls.drop_last());
    }
}

/// Parameters keep the order of their declaration lines: the k-th parameter
/// has the name and type hint that the k-th declaration line parses to, and
/// there is one parameter per such line.
pub proof fn lemma_parameters_in_declaration_order(text: Seq<char>)
    requires
        body_lines(text) is Some,
    ensures
        introspect(text)->0.parameters.len() == declared(body_lines(text)->0).len(),
        forall|k: int|
            0 <= k < declared(body_lines(text)->0).len() ==> (
            #[trigger] introspect(text)->0.parameters[k]).name == declared(
                body_lines(text)->0,
            )[k].name && introspect(text)->0.parameters[k].type_hint == declared(
                body_lines(text)->0,
            )[k].type_hint,
{
    lemma_assemble_declared(body_lines(text)->0);
}

proof fn lemma_assemble_untagged(ls: Seq<Seq<char>>)
    ensures
        assemble(ls).title == assemble(untagged(ls)).title,
        assemble(ls).description == assemble(untagged(ls)).description,
        assemble(ls).parameters == assemble(untagged(ls)).parameters,
    decreases ls.len(),
{
    if ls.len() > 0 {
        lemma_assemble_untagged(ls.drop_last());
        let u = untagged(ls.drop_last());
        if !is_tagged_line(ls.last()) {
            assert(untagged(ls).drop_last() =~= u);
        }
    }
}

/// A tagged comment line only ever adds to `comments`: title, description
/// and parameters are what they would be were every such line left out.
pub proof fn lemma_tagged_lines_only_comment(text: Seq<char>)
    requires
        body_lines(text) is Some,
    ensures
        introspect(text)->0.title == assemble(untagged(body_lines(text)->0)).title,
        introspect(text)->0.description == assemble(untagged(body_lines(text)->0)).description,
        introspect(text)->0.parameters == assemble(untagged(body_lines(text)->0)).parameters,
{
    lemma_assemble_untagged(body_lines(text)->0);
}

proof fn lemma_trim_start_head(s: Seq<char>)
    ensures
        trim_start(s).len() > 0 ==> !is_ws(trim_start(s)[0]),
        trim_start(s).len() > 0 ==> trim_start(s).last() == s.last(),
    decreases s.len(),
{
    if s.len() > 0 && is_ws(s[0]) {
        lemma_trim_start_head(s.drop_first());
    }
}

proof fn lemma_trim_end_tail(s: Seq<char>)
    ensures
        trim_end(s).len() > 0 ==> !is_ws(trim_end(s).last()),
        trim_end(s).len() > 0 ==> trim_end(s)[0] == s[0],
    decreases s.len(),
{
    if s.len() > 0 && is_ws(s.last()) {
        lemma_trim_end_tail(s.drop_last());
    }
}

proof fn lemma_trim_fixed(s: Seq<char>)
    requires
        s.len() == 0 || (!is_ws(s[0]) && !is_ws(s.last())),
    ensures
        trim(s) == s,
{
    lemma_trim_start_at(s, 0);
    assert(s.skip(0) =~= s);
    lemma_trim_end_at(s, s.len() as int);
    assert(s.take(s.len() as int) =~= s);
}

/// Trimming twice is trimming once.
pub proof fn lemma_trim_idempotent(s: Seq<char>)
    ensures
        trim(trim(s)) == trim(s),
{
    lemma_trim_start_head(s);
    lemma_trim_end_tail(trim_start(s));
    lemma_trim_fixed(trim(s));
}

/// Appending a comment line leaves no leading or trailing whitespace, and
/// two non-empty trimmed texts are joined by exactly one line break.
pub proof fn lemma_join_trimmed(acc: Option<Seq<char>>, line: Seq<char>)
    ensures
        trim(join(acc, line)) == join(acc, line),
        acc is Some && acc->0.len() > 0 && trim(acc->0) == acc->0 && line.len() > 0 && trim(line)
            == line ==> join(acc, line) == acc->0 + seq!['\n'] + line,
{
    let a = match acc {
        Some(a) => a,
        None => Seq::<char>::empty(),
    };
    lemma_trim_idempotent(a + seq!['\n'] + line);
    if acc is Some && a.len() > 0 && trim(a) == a && line.len() > 0 && trim(line) == line {
        lemma_trim_start_head(a);
        lemma_trim_end_tail(trim_start(a));
        lemma_trim_start_head(line);
        lemma_trim_end_tail(trim_start(line));
        let w = a + seq!['\n'] + line;
        assert(w[0] == a[0]);
        assert(w.last() == line.last());
        lemma_trim_fixed(w);
    }
}

proof fn lemma_assemble_description_trimmed(ls: Seq<Seq<char>>)
    ensures
        assemble(ls).description is Some ==> trim(assemble(ls).description->0)
            == assemble(ls).description->0,
    decreases ls.len(),
{
    if ls.len() > 0 {
        let st = assemble(ls.drop_last());
        lemma_assemble_description_trimmed(ls.drop_last());
        lemma_join_trimmed(st.description, payload(ls.last()));
    }
}

/// However many comment lines were appended to it, the description has no
/// leading or trailing whitespace, and so no blank line at either end.
pub proof fn lemma_description_trimmed(text: Seq<char>)
    requires
        introspect(text) is Some,
    ensures
        introspect(text)->0.description is Some ==> trim(introspect(text)->0.description->0)
            == introspect(text)->0.description->0,
{
    lemma_assemble_description_trimmed(body_lines(text)->0);
}

} // verus!
