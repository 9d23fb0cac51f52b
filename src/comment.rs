//! The tagged-comment classifier: `Label: value` lines whose label ends in
//! one of four recognised tags.
use vstd::prelude::*;
use crate::text::{chars_of, ends_with, ends_with_lit, find_pair_in, split_once};
use crate::types::{comment_opt_view, CommentType, CommentView, FnComment};

verus! {

broadcast use vstd::string::group_string_axioms;

/// What `str::to_lowercase` makes of a string.
pub uninterp spec fn lower_of(s: Seq<char>) -> Seq<char>;

/// Relies on `str::to_lowercase`: its result depends on the characters alone.
#[verifier::external_body]
fn lowercase(s: &str) -> (r: String)
    ensures
        r@ == lower_of(s@),
{
    s.to_lowercase()
}

/// The kind whose tag ends the lower-cased label, tried in the order
/// example, returns, hint, result.
pub open spec fn kind_of_label(lower: Seq<char>) -> Option<CommentType> {
    if ends_with(lower, "example"@) {
        Some(CommentType::Example)
    } else if ends_with(lower, "returns"@) {
        Some(CommentType::Returns)
    } else if ends_with(lower, "hint"@) {
        Some(CommentType::Hint)
    } else if ends_with(lower, "result"@) {
        Some(CommentType::Result)
    } else {
        None
    }
}

/// The comment that a lower-cased label and a value make, if the label is tagged.
pub open spec fn comment_from(lower_label: Seq<char>, value: Seq<char>) -> Option<CommentView> {
    match kind_of_label(lower_label) {
        Some(k) => Some(CommentView { kind: k, text: value }),
        None => None,
    }
}

/// The tagged comment that a comment payload holds, if any.
pub open spec fn classify(payload: Seq<char>) -> Option<CommentView> {
    match split_once(payload, ':', ' ') {
        Some((label, value)) => comment_from(lower_of(label), value),
        None => None,
    }
}

/// Builds the comment for an already lower-cased label and its value.
pub fn comment_from_parts(lower_label: &str, value: &str) -> (r: Option<FnComment>)
    ensures
        comment_opt_view(r) == comment_from(lower_label@, value@),
{
    let cs = chars_of(lower_label);
    let kind = if ends_with_lit(&cs, "example") {
        CommentType::Example
    } else if ends_with_lit(&cs, "returns") {
        CommentType::Returns
    } else if ends_with_lit(&cs, "hint") {
        CommentType::Hint
    } else if ends_with_lit(&cs, "result") {
        CommentType::Result
    } else {
        return None;
    };
    Some(FnComment { name: kind, comment: String::from_str(value) })
}

/// Reads a comment payload (marker already stripped, trimmed) as a tagged
/// comment: split at the first `": "`, then classify the label.
pub fn try_parse_fn_comment(comment: &str) -> (r: Option<FnComment>)
    ensures
        comment_opt_view(r) == classify(comment@),
{
    let cs = chars_of(comment);
    let n = cs.len();
    match find_pair_in(&cs, ':', ' ') {
        Some(i) => {
            let label = comment.substring_char(0, i);
            let value = comment.substring_char(i + 2, n);
            assert(label@ == comment@.take(i as int));
            assert(value@ == comment@.skip(i + 2));
            let lowered = lowercase(label);
            comment_from_parts(lowered.as_str(), value)
        },
        None => None,
    }
}

} // verus!
