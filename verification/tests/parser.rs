use hypr_profile::environment_string_replace::EnvStringReplace;
use hypr_profile::hypr_config::HyprConfigObject;

fn parse(lines: Vec<&str>) -> Vec<(String, String)> {
    let rep = EnvStringReplace::new(false);
    HyprConfigObject::collection_from_vector(lines, &rep)
        .into_iter()
        .map(|e| (e.key, e.value))
        .collect()
}

fn pair(k: &str, v: &str) -> (String, String) {
    (k.to_owned(), v.to_owned())
}

#[test]
fn single_assignment() {
    assert_eq!(parse(vec!["a=1"]), vec![pair("a", "1")]);
}

#[test]
fn assignment_with_spaces() {
    assert_eq!(parse(vec!["  spacing = wide  "]), vec![pair("spacing", "wide")]);
}

#[test]
fn nested_scopes_qualify_innermost_first() {
    let lines = vec!["outer {", "inner {", "x = 5", "}", "}"];
    assert_eq!(parse(lines), vec![pair("inner:outer:x", "5")]);
}

#[test]
fn scope_closes_and_reopens() {
    let lines = vec!["a {", "b=1", "}", "c=2"];
    assert_eq!(parse(lines), vec![pair("a:b", "1"), pair("c", "2")]);
}

#[test]
fn comments_and_trailing_comments() {
    let lines = vec!["# comment", "a=1 # trailing"];
    assert_eq!(parse(lines), vec![pair("a", "1")]);
}

#[test]
fn unmatched_close_is_a_no_op() {
    let lines = vec!["}", "a=1"];
    assert_eq!(parse(lines), vec![pair("a", "1")]);
}

#[test]
fn extra_closes_never_underflow() {
    let lines = vec!["}", "}", "}", "o {", "}", "}", "k=v"];
    assert_eq!(parse(lines), vec![pair("k", "v")]);
}

#[test]
fn lines_without_assignment_emit_nothing() {
    let lines = vec!["", "   ", "just words", "{", "}"];
    assert_eq!(parse(lines), Vec::<(String, String)>::new());
}

#[test]
fn splits_at_first_equals_only() {
    assert_eq!(parse(vec!["a=b=c"]), vec![pair("a", "b=c")]);
}

#[test]
fn macro_line_expands_value() {
    let mut rep = EnvStringReplace::new(false);
    rep.set_custom_variable("NAME".to_owned(), "v".to_owned());
    let entries = HyprConfigObject::collection_from_vector(vec!["#!a=${NAME}"], &rep);
    assert_eq!(entries.len(), 1);
    assert_eq!(entries[0].key, "a");
    assert_eq!(entries[0].value, "v");
}

#[test]
fn plain_line_keeps_token_literal() {
    let mut rep = EnvStringReplace::new(false);
    rep.set_custom_variable("NAME".to_owned(), "v".to_owned());
    let entries = HyprConfigObject::collection_from_vector(vec!["a=${NAME}"], &rep);
    assert_eq!(entries.len(), 1);
    assert_eq!(entries[0].key, "a");
    assert_eq!(entries[0].value, "${NAME}");
}

#[test]
fn macro_marker_then_comment_is_skipped() {
    assert_eq!(parse(vec!["#!# a=1"]), Vec::<(String, String)>::new());
}

#[test]
fn scope_opening_line_with_assignment_emits_under_new_scope() {
    // A line can open a scope and carry an assignment at once; the entry is
    // qualified by the scope the line itself opened, and its value keeps the
    // brace.
    let lines = vec!["a=b {", "c=1"];
    assert_eq!(parse(lines), vec![pair("a=b:a", "b {"), pair("a=b:c", "1")]);
}

#[test]
fn reparsing_yields_identical_output() {
    let lines = vec!["outer {", "#!x=${V}", "y = 2 # note", "}", "z=3"];
    let mut rep = EnvStringReplace::new(false);
    rep.set_custom_variable("V".to_owned(), "val".to_owned());
    let first: Vec<(String, String)> =
        HyprConfigObject::collection_from_vector(lines.clone(), &rep)
            .into_iter()
            .map(|e| (e.key, e.value))
            .collect();
    let second: Vec<(String, String)> =
        HyprConfigObject::collection_from_vector(lines, &rep)
            .into_iter()
            .map(|e| (e.key, e.value))
            .collect();
    assert_eq!(first, second);
    assert_eq!(
        first,
        vec![pair("outer:x", "val"), pair("outer:y", "2"), pair("z", "3")]
    );
}

#[test]
fn persistence_line_joins_key_and_value() {
    let entry = HyprConfigObject {
        key: "general:border_size".to_owned(),
        value: "2".to_owned(),
    };
    assert_eq!(entry.persistence_line(), "general:border_size=2");
}
