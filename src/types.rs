//! The records that a parse produces, and their mathematical views.
use vstd::prelude::*;

verus! {

/// The four kinds of tagged comment.
#[derive(Clone, Copy, Debug, PartialEq, Eq, Structural)]
pub enum CommentType {
    Example,
    Hint,
    Result,
    Returns,
}

/// A tagged comment: its kind and the text right of the separator.
#[derive(Debug)]
pub struct FnComment {
    pub name: CommentType,
    pub comment: String,
}

/// One declared parameter.
#[derive(Debug, Default)]
pub struct FnParameter {
    pub name: String,
    /// The part of the inline comment before the first `", "`, when it names a type
    pub _type: Option<String>,
    /// The rest of the inline comment, followed by the doc lines attached later
    pub comment: Option<String>,
}

/// Everything extracted from one function's text.
#[derive(Debug, Default)]
pub struct FnSignature {
    /// The first untagged comment line
    pub title: Option<String>,
    /// Untagged comment lines between the title and the first parameter
    pub description: Option<String>,
    pub parameters: Vec<FnParameter>,
    pub comments: Vec<FnComment>,
}

pub struct CommentView {
    pub kind: CommentType,
    pub text: Seq<char>,
}

pub struct ParamView {
    pub name: Seq<char>,
    pub type_hint: Option<Seq<char>>,
    pub comment: Option<Seq<char>>,
}

pub struct SignatureView {
    pub title: Option<Seq<char>>,
    pub description: Option<Seq<char>>,
    pub parameters: Seq<ParamView>,
    pub comments: Seq<CommentView>,
}

pub open spec fn opt_view(o: Option<String>) -> Option<Seq<char>> {
    match o {
        Some(s) => Some(s@),
        None => None,
    }
}

impl View for FnComment {
    type V = CommentView;

    open spec fn view(&self) -> CommentView {
        CommentView { kind: self.name, text: self.comment@ }
    }
}

impl View for FnParameter {
    type V = ParamView;

    open spec fn view(&self) -> ParamView {
        ParamView { name: self.name@, type_hint: opt_view(self._type), comment: opt_view(self.comment) }
    }
}

impl View for FnSignature {
    type V = SignatureView;

    open spec fn view(&self) -> SignatureView {
        SignatureView {
            title: opt_view(self.title),
            description: opt_view(self.description),
            parameters: self.parameters@.map_values(|p: FnParameter| p@),
            comments: self.comments@.map_values(|c: FnComment| c@),
        }
    }
}

pub open spec fn comment_opt_view(o: Option<FnComment>) -> Option<CommentView> {
    match o {
        Some(c) => Some(c@),
        None => None,
    }
}

pub open spec fn param_opt_view(o: Option<FnParameter>) -> Option<ParamView> {
    match o {
        Some(p) => Some(p@),
        None => None,
    }
}

pub open spec fn signature_opt_view(o: Option<FnSignature>) -> Option<SignatureView> {
    match o {
        Some(s) => Some(s@),
        None => None,
    }
}

} // verus!
