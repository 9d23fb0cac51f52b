//! The signature assembler: one pass over the body lines that sends comment
//! lines to the classifier or to title, description and parameter comments,
//! and every other line to the parameter grammar.
use vstd::prelude::*;
use crate::comment::{classify, try_parse_fn_comment};
use crate::lines::{body_lines, body_ranges, is_terminator, nonblank_lines, spans};
use crate::param::{parse_param, try_parse_fn_parameter};
use crate::text::{chars_of, trim, trim_bounds};
use crate::types::{opt_view, signature_opt_view, FnParameter, FnSignature, ParamView, SignatureView};

verus! {

broadcast use vstd::string::group_string_axioms;

/// A line that opens with the line-comment marker `//`.
pub open spec fn is_comment_line(l: Seq<char>) -> bool {
    l.len() >= 2 && l[0] == '/' && l[1] == '/'
}

/// `s` without every leading `//`.
pub open spec fn strip_markers(s: Seq<char>) -> Seq<char>
    decreases s.len(),
{
    if s.len() >= 2 && s[0] == '/' && s[1] == '/' {
        strip_markers(s.skip(2))
    } else {
        s
    }
}

/// What a comment line says: markers stripped, then trimmed.
pub open spec fn payload(l: Seq<char>) -> Seq<char> {
    trim(strip_markers(l))
}

/// `acc` (empty when absent), a line break and `line`, trimmed as a whole.
pub open spec fn join(acc: Option<Seq<char>>, line: Seq<char>) -> Seq<char> {
    let a = match acc {
        Some(a) => a,
        None => Seq::<char>::empty(),
    };
    trim(a + seq!['\n'] + line)
}

pub open spec fn empty_signature() -> SignatureView {
    SignatureView {
        title: None,
        description: None,
        parameters: Seq::<ParamView>::empty(),
        comments: Seq::empty(),
    }
}

/// What a doc line (a comment line that is not tagged) does to `st`: it
/// becomes the title, else joins the description while no parameter is
/// recorded, else joins the last parameter's comment.
pub open spec fn attach_doc(st: SignatureView, c: Seq<char>) -> SignatureView {
    if st.title is None {
        SignatureView { title: Some(c), ..st }
    } else if st.parameters.len() == 0 {
        SignatureView { description: Some(join(st.description, c)), ..st }
    } else {
        let last = st.parameters.last();
        SignatureView {
            parameters: st.parameters.update(
                st.parameters.len() - 1,
                ParamView { comment: Some(join(last.comment, c)), ..last },
            ),
            ..st
        }
    }
}

/// The effect of one body line.
pub open spec fn step(st: SignatureView, l: Seq<char>) -> SignatureView {
    if is_comment_line(l) {
        match classify(payload(l)) {
            Some(cm) => SignatureView { comments: st.comments.push(cm), ..st },
            None => attach_doc(st, payload(l)),
        }
    } else {
        match parse_param(l) {
            Some(p) => SignatureView { parameters: st.parameters.push(p), ..st },
            None => st,
        }
    }
}

/// The signature that the body lines build, one line after the other.
pub open spec fn assemble(ls: Seq<Seq<char>>) -> SignatureView
    decreases ls.len(),
{
    if ls.len() == 0 {
        empty_signature()
    } else {
        step(assemble(ls.drop_last()), ls.last())
    }
}

/// The signature of a function's text, absent when it has no body lines.
pub open spec fn introspect(text: Seq<char>) -> Option<SignatureView> {
    match body_lines(text) {
        Some(ls) => Some(assemble(ls)),
        None => None,
    }
}

/// Exec form of `join`.
fn join_line(acc: &Option<String>, line: &str) -> (r: String)
    ensures
        r@ == join(opt_view(*acc), line@),
{
    let base = match acc {
        Some(a) => a.clone(),
        None => String::new(),
    };
    proof {
        reveal_strlit("\n");
        assert("\n"@ =~= seq!['\n']);
    }
    let whole = base.concat("\n").concat(line);
    assert(base@ == match opt_view(*acc) {
        Some(a) => a,
        None => Seq::<char>::empty(),
    });
    let text = whole.as_str();
    let cs = chars_of(text);
    let (p, q) = trim_bounds(&cs, 0, cs.len());
    assert(cs@.subrange(0, cs@.len() as int) =~= cs@);
    String::from_str(text.substring_char(p, q))
}

/// Extracts title, description, parameters and tagged comments from the
/// text of one function. Absent when the text has fewer than three
/// non-blank lines or no body-start line after the first.
pub fn introspect_plain(fn_text: String) -> (r: Option<FnSignature>)
    ensures
        signature_opt_view(r) == introspect(fn_text@),
        nonblank_lines(fn_text@).len() < 3 ==> r is None,
        (forall|k: int|
            0 <= k < nonblank_lines(fn_text@).len() ==> !is_terminator(
                #[trigger] nonblank_lines(fn_text@)[k],
            )) ==> r is None,
{
    let text = fn_text.as_str();
    let cs = chars_of(text);
    let body = match body_ranges(text, &cs) {
        Some(b) => b,
        None => {
            return None;
        },
    };
    let ghost ls = body_lines(fn_text@)->0;
    let mut sig = FnSignature {
        title: None,
        description: None,
        parameters: Vec::new(),
        comments: Vec::new(),
    };
    proof {
        assert(sig@.parameters =~= Seq::<ParamView>::empty());
        assert(sig@.comments =~= empty_signature().comments);
        assert(ls.take(0) =~= Seq::<Seq<char>>::empty());
    }
    let mut i: usize = 0;
    while i < body.len()
        invariant
            i <= body@.len(),
            cs@ == text@,
            text@ == fn_text@,
            spans(cs@, body@) == ls,
            forall|k: int|
                0 <= k < body@.len() ==> 0 <= (#[trigger] body@[k]).0 <= body@[k].1 <= cs@.len(),
            sig@ == assemble(ls.take(i as int)),
        decreases body@.len() - i,
    {
        let ghost st = sig@;
        let (a, b) = body[i];
        let ghost l = ls[i as int];
        assert(l == cs@.subrange(a as int, b as int));
        assert(ls.take(i + 1).drop_last() =~= ls.take(i as int));
        assert(ls.take(i + 1).last() == l);
        if b - a >= 2 && cs[a] == '/' && cs[a + 1] == '/' {
            let mut p: usize = a;
            while b - p >= 2 && cs[p] == '/' && cs[p + 1] == '/'
                invariant
                    a <= p <= b <= cs@.len(),
                    strip_markers(l) == strip_markers(cs@.subrange(p as int, b as int)),
                decreases b - p,
            {
                assert(cs@.subrange(p as int, b as int).skip(2) =~= cs@.subrange(p + 2, b as int));
                p = p + 2;
            }
            let (x, y) = trim_bounds(&cs, p, b);
            let line = text.substring_char(x, y);
            assert(line@ == payload(l));
            match try_parse_fn_comment(line) {
                Some(c) => {
                    sig.comments.push(c);
                    assert(sig@.comments =~= st.comments.push(c@));
                },
                None => {
                    if sig.title.is_none() {
                        sig.title = Some(String::from_str(line));
                    } else if sig.parameters.len() == 0 {
                        let joined = join_line(&sig.description, line);
                        sig.description = Some(joined);
                    } else {
                        let last = sig.parameters.pop().unwrap();
                        let FnParameter { name, _type, comment } = last;
                        let joined = join_line(&comment, line);
                        sig.parameters.push(FnParameter { name, _type, comment: Some(joined) });
                        assert(sig@.parameters =~= attach_doc(st, payload(l)).parameters);
                    }
                },
            }
        } else {
            let line = text.substring_char(a, b);
            match try_parse_fn_parameter(line) {
                Some(p) => {
                    sig.parameters.push(p);
                    assert(sig@.parameters =~= st.parameters.push(p@));
                },
                None => {},
            }
        }
        i = i + 1;
    }
    assert(ls.take(body@.len() as int) =~= ls);
    proof {
        let ls0 = nonblank_lines(fn_text@);
        if forall|k: int| 0 <= k < ls0.len() ==> !is_terminator(#[trigger] ls0[k]) {
            crate::lines::lemma_terminator_none(ls0, 1);
        }
    }
    Some(sig)
}

} // verus!
