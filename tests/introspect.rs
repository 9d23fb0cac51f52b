use fn_introspect::{
    comment_from_parts, introspect_plain, try_parse_fn_comment, try_parse_fn_parameter,
    CommentType, FnSignature,
};

fn parse(text: &str) -> Option<FnSignature> {
    introspect_plain(text.to_string())
}

fn opt(s: &Option<String>) -> Option<&str> {
    s.as_deref()
}

#[test]
fn scenario_add_with_typed_parameters() {
    let text = "function add(\n// Adds two numbers\na, // number, first operand\nb, // number, second operand\n) {\n  return a + b;\n}";
    let sig = parse(text).unwrap();
    assert_eq!(opt(&sig.title), Some("Adds two numbers"));
    assert_eq!(sig.description, None);
    assert_eq!(sig.parameters.len(), 2);
    assert_eq!(sig.parameters[0].name, "a");
    assert_eq!(opt(&sig.parameters[0]._type), Some("number"));
    assert_eq!(opt(&sig.parameters[0].comment), Some("first operand"));
    assert_eq!(sig.parameters[1].name, "b");
    assert_eq!(opt(&sig.parameters[1]._type), Some("number"));
    assert_eq!(opt(&sig.parameters[1].comment), Some("second operand"));
    assert!(sig.comments.is_empty());
}

#[test]
fn scenario_only_example_comment() {
    let text = "function add(\n// Example: add(1, 2) => 3\n) {\n}";
    let sig = parse(text).unwrap();
    assert_eq!(sig.comments.len(), 1);
    assert_eq!(sig.comments[0].name, CommentType::Example);
    assert_eq!(sig.comments[0].comment, "add(1, 2) => 3");
    assert_eq!(sig.title, None);
    assert_eq!(sig.description, None);
    assert!(sig.parameters.is_empty());
}

#[test]
fn scenario_two_nonblank_lines_is_absent() {
    assert!(parse("function f(\n) {").is_none());
    assert!(parse("\n\n  function f(  \n\n   ) {\n\n").is_none());
}

#[test]
fn fewer_than_three_lines_is_absent() {
    assert!(parse("").is_none());
    assert!(parse("   \n \t \n").is_none());
    assert!(parse("only one line").is_none());
}

#[test]
fn scenario_unrecognized_hint_kept_whole() {
    let text = "function f(\nx, // some unrecognized hint, extra text\n) {\n}";
    let sig = parse(text).unwrap();
    assert_eq!(sig.parameters.len(), 1);
    assert_eq!(sig.parameters[0].name, "x");
    assert_eq!(sig.parameters[0]._type, None);
    assert_eq!(opt(&sig.parameters[0].comment), Some("some unrecognized hint, extra text"));
}

#[test]
fn scenario_two_line_description() {
    let text = "function f(\n// Title here\n// first description line\n// second description line\nx,\n) {\n}";
    let sig = parse(text).unwrap();
    assert_eq!(opt(&sig.title), Some("Title here"));
    assert_eq!(
        opt(&sig.description),
        Some("first description line\nsecond description line")
    );
    assert_eq!(sig.parameters.len(), 1);
    assert_eq!(sig.parameters[0].name, "x");
    assert_eq!(sig.parameters[0].comment, None);
}

#[test]
fn no_terminator_is_absent() {
    let text = "function f(\n// Title\na,\nb,\n)\n{";
    assert!(parse(text).is_none());
    // a terminator on the opening line does not count
    assert!(parse(") {\n// Title\na,").is_none());
}

#[test]
fn every_terminator_is_recognised() {
    for term in [") {", ") => {", ") => ("] {
        let text = format!("const f = (\n  a,  \n  {}\n  body\n", term);
        let sig = introspect_plain(text).unwrap();
        assert_eq!(sig.parameters.len(), 1);
        assert_eq!(sig.parameters[0].name, "a");
    }
}

#[test]
fn lines_after_terminator_are_ignored() {
    let text = "function f(\na,\n) {\n// Returns: never seen\nb,\n) {\n}";
    let sig = parse(text).unwrap();
    assert_eq!(sig.parameters.len(), 1);
    assert!(sig.comments.is_empty());
}

#[test]
fn parameters_keep_declaration_order() {
    let text = "function f(\nzeta,\n// Title\nalpha, // string, s\nmid,\n) {";
    let sig = parse(text).unwrap();
    let names: Vec<&str> = sig.parameters.iter().map(|p| p.name.as_str()).collect();
    assert_eq!(names, vec!["zeta", "alpha", "mid"]);
    assert_eq!(opt(&sig.parameters[1]._type), Some("string"));
}

#[test]
fn tagged_lines_never_become_doc_text() {
    let text = "function f(\n// Hint: use carefully\n// The title\n// Result: ok\n// More words\na,\n// Returns: a number\n// about a\n) {";
    let sig = parse(text).unwrap();
    assert_eq!(opt(&sig.title), Some("The title"));
    assert_eq!(opt(&sig.description), Some("More words"));
    assert_eq!(opt(&sig.parameters[0].comment), Some("about a"));
    let kinds: Vec<CommentType> = sig.comments.iter().map(|c| c.name).collect();
    assert_eq!(kinds, vec![CommentType::Hint, CommentType::Result, CommentType::Returns]);
    assert_eq!(sig.comments[2].comment, "a number");
}

#[test]
fn doc_lines_after_a_parameter_join_its_comment() {
    let text = "function f(\n// T\na, // number,  spaced\n// next line\n//\n// last\n) {";
    let sig = parse(text).unwrap();
    assert_eq!(opt(&sig.parameters[0]._type), Some("number"));
    assert_eq!(opt(&sig.parameters[0].comment), Some("spaced\nnext line\nlast"));
    assert_eq!(sig.description, None);
}

#[test]
fn joined_text_is_trimmed_at_both_ends() {
    let text = "function f(\n// T\n//\n// body\n//\n) {";
    let sig = parse(text).unwrap();
    assert_eq!(opt(&sig.description), Some("body"));
}

#[test]
fn repeated_markers_are_stripped() {
    let text = "f(\n//// Deep title\n/// Example: e\n) {";
    let sig = parse(text).unwrap();
    assert_eq!(opt(&sig.title), Some("Deep title"));
    assert_eq!(sig.comments[0].name, CommentType::Example);
    assert_eq!(sig.comments[0].comment, "e");
}

#[test]
fn empty_body_gives_empty_signature() {
    let sig = parse("function f(\n) {\n}").unwrap();
    assert!(sig.title.is_none() && sig.parameters.is_empty());
    let sig = parse("function f(\n\n) {\n}\nmore").unwrap();
    assert!(sig.title.is_none() && sig.description.is_none());
    assert!(sig.parameters.is_empty() && sig.comments.is_empty());
}

#[test]
fn classifier_kinds_and_priority() {
    let c = try_parse_fn_comment("Example: x").unwrap();
    assert_eq!(c.name, CommentType::Example);
    assert_eq!(c.comment, "x");
    assert_eq!(try_parse_fn_comment("hint: y").unwrap().name, CommentType::Hint);
    assert_eq!(try_parse_fn_comment("Result: z").unwrap().name, CommentType::Result);
    assert_eq!(try_parse_fn_comment("RETURNS: w").unwrap().name, CommentType::Returns);
    assert_eq!(try_parse_fn_comment("SomeHint: v").unwrap().name, CommentType::Hint);
    let c = try_parse_fn_comment("Example: a: b").unwrap();
    assert_eq!(c.comment, "a: b");
    let c = try_parse_fn_comment("Returns:  padded ").unwrap();
    assert_eq!(c.comment, " padded ");
}

#[test]
fn classifier_rejects() {
    assert!(try_parse_fn_comment("Example:x").is_none());
    assert!(try_parse_fn_comment("Examples: x").is_none());
    assert!(try_parse_fn_comment("Note: x").is_none());
    assert!(try_parse_fn_comment("plain text").is_none());
    assert!(try_parse_fn_comment("").is_none());
}

#[test]
fn classifier_lowercases_the_label() {
    let c = try_parse_fn_comment("EXAMPLE: Keep Case").unwrap();
    assert_eq!(c.name, CommentType::Example);
    assert_eq!(c.comment, "Keep Case");
}

#[test]
fn comment_from_lowered_label() {
    assert_eq!(comment_from_parts("my example", "v").unwrap().name, CommentType::Example);
    assert_eq!(comment_from_parts("returns", "v").unwrap().name, CommentType::Returns);
    assert_eq!(comment_from_parts("result", "v").unwrap().comment, "v");
    assert!(comment_from_parts("Example", "v").is_none());
    assert!(comment_from_parts("note", "v").is_none());
}

#[test]
fn parameter_plain_forms() {
    let p = try_parse_fn_parameter("a").unwrap();
    assert_eq!(p.name, "a");
    assert!(p._type.is_none() && p.comment.is_none());
    let p = try_parse_fn_parameter("abc,").unwrap();
    assert_eq!(p.name, "abc");
    assert!(p.comment.is_none());
    let p = try_parse_fn_parameter("abc,,").unwrap();
    assert_eq!(p.name, "abc,");
    let p = try_parse_fn_parameter("{ a, b },").unwrap();
    assert_eq!(p.name, "{ a, b }");
}

#[test]
fn parameter_inline_comments() {
    let p = try_parse_fn_parameter("ab  // c").unwrap();
    assert_eq!(p.name, "ab");
    assert_eq!(opt(&p.comment), Some("c"));
    let p = try_parse_fn_parameter("a//b").unwrap();
    assert_eq!(p.name, "a");
    assert_eq!(opt(&p.comment), Some("b"));
    let p = try_parse_fn_parameter("a // b // c").unwrap();
    assert_eq!(opt(&p.comment), Some("b // c"));
    let p = try_parse_fn_parameter("a, //").unwrap();
    assert_eq!(p.name, "a");
    assert_eq!(opt(&p.comment), Some(""));
}

#[test]
fn type_hint_only_for_known_names() {
    for t in [
        "string", "number", "boolean", "undefined", "function", "array", "object", "null",
        "symbol", "char", "hash", "record", "set", "map",
    ] {
        let line = format!("v, // {}, text", t);
        let p = try_parse_fn_parameter(&line).unwrap();
        assert_eq!(opt(&p._type), Some(t));
        assert_eq!(opt(&p.comment), Some("text"));
    }
    let p = try_parse_fn_parameter("v, // Number, text").unwrap();
    assert_eq!(p._type, None);
    assert_eq!(opt(&p.comment), Some("Number, text"));
    let p = try_parse_fn_parameter("v, // number,text").unwrap();
    assert_eq!(p._type, None);
    assert_eq!(opt(&p.comment), Some("number,text"));
    let p = try_parse_fn_parameter("v, // number").unwrap();
    assert_eq!(p._type, None);
    assert_eq!(opt(&p.comment), Some("number"));
    let p = try_parse_fn_parameter("v, // number, a, b").unwrap();
    assert_eq!(opt(&p._type), Some("number"));
    assert_eq!(opt(&p.comment), Some("a, b"));
}

#[test]
fn parameter_line_breaks() {
    assert!(try_parse_fn_parameter("").is_none());
    assert!(try_parse_fn_parameter("a\nb").is_none());
    let p = try_parse_fn_parameter("a\n// b").unwrap();
    assert_eq!(p.name, "a");
    assert_eq!(opt(&p.comment), Some("b"));
}
