//! Extraction of documentation metadata (title, description, parameters and
//! tagged comments) from the source text of a single function.
pub mod text;
pub mod lines;
pub mod types;
pub mod comment;
pub mod param;
pub mod signature;
pub mod laws;

pub use comment::{comment_from_parts, try_parse_fn_comment};
pub use param::try_parse_fn_parameter;
pub use signature::introspect_plain;
pub use types::{CommentType, FnComment, FnParameter, FnSignature};
