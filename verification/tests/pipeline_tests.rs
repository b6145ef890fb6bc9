use tq::Outcome;
use tq::parse::parse_document;
use tq::query::QueryError;
use tq::run_query;

fn found_lines(r: Result<Outcome, QueryError>) -> Vec<String> {
    match r.expect("query should succeed") {
        Outcome::Found(lines) => lines,
        Outcome::NotFound => panic!("path should resolve"),
    }
}

#[test]
fn parse_gives_each_scalar_its_rendered_text() {
    let doc = parse_document("a = 1\nb = true").expect("well-formed document");
    let entries = doc.entries.as_ref().expect("the root is a table");
    assert_eq!(entries[0].0, "a");
    assert_eq!(entries[0].1.text, "1");
    assert_eq!(entries[1].0, "b");
    assert_eq!(entries[1].1.text, "true");
}

#[test]
fn parse_nested_tables_resolve_by_path() {
    let doc = parse_document("[a.b]\nc = 5").expect("well-formed document");
    let lines = found_lines(run_query(&doc, "a.b.c", None));
    assert_eq!(lines, vec!["5".to_string()]);
}

#[test]
fn parse_rejects_malformed_text_with_a_diagnostic() {
    let err = parse_document("this is = = not toml").expect_err("malformed document");
    assert!(!err.is_empty());
}

#[test]
fn string_value_prints_without_its_quotes() {
    let doc = parse_document("greeting = \"hello\"").expect("well-formed document");
    let lines = found_lines(run_query(&doc, "greeting", None));
    assert_eq!(lines, vec!["hello".to_string()]);
}

#[test]
fn missing_path_is_not_found() {
    let doc = parse_document("a = 1").expect("well-formed document");
    let r = run_query(&doc, "a.b.c", None).expect("no expression never fails");
    assert!(matches!(r, Outcome::NotFound));
}

#[test]
fn filter_applies_to_the_resolved_value() {
    let doc = parse_document("v = \"abc123abc\"").expect("well-formed document");
    let lines = found_lines(run_query(&doc, "v", Some("[0-9]+")));
    assert_eq!(lines, vec!["abc123abc".to_string(), "123".to_string()]);
}

#[test]
fn bad_expression_fails_the_whole_query() {
    let doc = parse_document("v = \"x\"").expect("well-formed document");
    let err = run_query(&doc, "v", Some("(")).expect_err("unbalanced group");
    assert_eq!(err, QueryError::RegexCompile);
}

#[test]
fn exit_codes_follow_the_outcome() {
    let doc = parse_document("a = 1").expect("well-formed document");
    let found = run_query(&doc, "a", None).expect("no expression never fails");
    assert_eq!(tq::exit_code(&found), 0);
    let missing = run_query(&doc, "b", None).expect("no expression never fails");
    assert_eq!(tq::exit_code(&missing), -1);
}

#[test]
fn arrays_are_leaves_for_lookup() {
    let doc = parse_document("xs = [1, 2]").expect("well-formed document");
    let node = tq::resolve::resolve(&doc, "xs").expect("array key");
    assert!(node.entries.is_none());
    assert!(tq::resolve::resolve(&doc, "xs.0").is_none());
}
