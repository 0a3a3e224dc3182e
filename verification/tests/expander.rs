use hypr_profile::environment_string_replace::EnvStringReplace;

fn apply(rep: &EnvStringReplace, s: &str) -> String {
    rep.apply(&s.to_owned())
}

#[test]
fn identity_on_plain_text() {
    let rep = EnvStringReplace::new(false);
    for s in [
        "",
        "plain text",
        "key = value",
        "a$b",
        "dollar $ alone",
        "{braces} without dollar",
    ] {
        assert_eq!(apply(&rep, s), s);
    }
}

#[test]
fn malformed_tokens_left_untouched() {
    let rep = EnvStringReplace::new(false);
    assert_eq!(apply(&rep, "${unclosed"), "${unclosed");
    assert_eq!(apply(&rep, "${}"), "${}");
    assert_eq!(apply(&rep, "$ {SPACED}"), "$ {SPACED}");
}

#[test]
fn custom_variable_resolves() {
    let mut rep = EnvStringReplace::new(false);
    rep.set_custom_variable("A".to_owned(), "x".to_owned());
    assert_eq!(apply(&rep, "${A}"), "x");
}

#[test]
fn missing_variable_becomes_empty() {
    let rep = EnvStringReplace::new(false);
    assert_eq!(apply(&rep, "${MISSING}"), "");
    assert_eq!(apply(&rep, "a${MISSING}b"), "ab");
}

#[test]
fn custom_takes_precedence_over_environment() {
    let mut rep = EnvStringReplace::new(true);
    rep.set_environment_variables(vec![("A".to_owned(), "from_env".to_owned())]);
    rep.set_custom_variable("A".to_owned(), "from_custom".to_owned());
    assert_eq!(apply(&rep, "${A}"), "from_custom");
    assert_eq!(rep.get_var_value("A"), Ok("from_custom".to_owned()));
}

#[test]
fn environment_fallback_only_when_enabled() {
    let mut enabled = EnvStringReplace::new(true);
    enabled.set_environment_variables(vec![("HOME_DIR".to_owned(), "/home/u".to_owned())]);
    assert_eq!(apply(&enabled, "${HOME_DIR}/x"), "/home/u/x");

    let mut disabled = EnvStringReplace::new(false);
    disabled.set_environment_variables(vec![("HOME_DIR".to_owned(), "/home/u".to_owned())]);
    assert_eq!(apply(&disabled, "${HOME_DIR}/x"), "/x");
    assert_eq!(disabled.get_var_value("HOME_DIR"), Err(()));
}

#[test]
fn every_occurrence_is_replaced() {
    let mut rep = EnvStringReplace::new(false);
    rep.set_custom_variable("A".to_owned(), "x".to_owned());
    assert_eq!(apply(&rep, "${A}-${A}-${A}"), "x-x-x");
}

#[test]
fn first_closing_brace_terminates_token() {
    let mut rep = EnvStringReplace::new(false);
    rep.set_custom_variable("A".to_owned(), "x".to_owned());
    // The token ends at the first closing brace, so the name here is "A",
    // and the second closing brace is ordinary text.
    assert_eq!(apply(&rep, "${A}}"), "x}");
    // A dollar-brace inside a token belongs to the name.
    assert_eq!(apply(&rep, "${${A}}"), "}");
}

#[test]
fn expansion_is_a_single_pass() {
    let mut rep = EnvStringReplace::new(false);
    rep.set_custom_variable("A".to_owned(), "${B}".to_owned());
    rep.set_custom_variable("B".to_owned(), "z".to_owned());
    // A resolved value that itself looks like a token is left as literal
    // text: the pass moves on past it, only later source text is scanned.
    assert_eq!(apply(&rep, "${A}"), "${B}");
    assert_eq!(apply(&rep, "${A}${B}"), "${B}z");
}

#[test]
fn later_custom_binding_shadows_earlier() {
    let mut rep = EnvStringReplace::new(false);
    rep.set_custom_variable("A".to_owned(), "first".to_owned());
    rep.set_custom_variable("A".to_owned(), "second".to_owned());
    assert_eq!(apply(&rep, "${A}"), "second");
}

#[test]
fn get_var_value_reports_resolution() {
    let mut rep = EnvStringReplace::new(false);
    rep.set_custom_variable("K".to_owned(), "v".to_owned());
    assert_eq!(rep.get_var_value("K"), Ok("v".to_owned()));
    assert_eq!(rep.get_var_value("ABSENT"), Err(()));
}
