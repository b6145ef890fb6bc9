use tq::document::Doc;
use tq::document::lookup;
use tq::resolve::resolve;
use tq::resolve::split_path;

fn leaf(text: &str) -> Doc {
    Doc { text: text.to_string(), entries: None }
}

fn table(entries: Vec<(&str, Doc)>) -> Doc {
    Doc {
        text: String::new(),
        entries: Some(entries.into_iter().map(|(k, v)| (k.to_string(), v)).collect()),
    }
}

fn sample() -> Doc {
    table(vec![
        ("a", table(vec![("b", table(vec![("c", leaf("1"))])), ("d", leaf("2"))])),
        ("e", leaf("3")),
    ])
}

#[test]
fn resolve_chain_returns_scalar() {
    let doc = sample();
    let found = resolve(&doc, "a.b.c").expect("chain of existing keys");
    assert_eq!(found.text, "1");
    assert!(found.entries.is_none());
    let found = resolve(&doc, "e").expect("top-level key");
    assert_eq!(found.text, "3");
}

#[test]
fn resolve_missing_segment_is_absent() {
    let doc = sample();
    assert!(resolve(&doc, "a.x.c").is_none());
    assert!(resolve(&doc, "a.x.whatever.else").is_none());
    assert!(resolve(&doc, "z").is_none());
}

#[test]
fn resolve_stops_inside_scalar() {
    let doc = sample();
    assert!(resolve(&doc, "e.anything").is_none());
}

#[test]
fn resolve_empty_path_returns_root() {
    let doc = sample();
    let found = resolve(&doc, "").expect("empty path");
    assert!(found.entries.is_some());
    assert_eq!(found.entries.as_ref().unwrap().len(), 2);
}

#[test]
fn resolve_empty_segment_is_a_literal_key() {
    let doc = table(vec![("", table(vec![("a", leaf("9"))]))]);
    let found = resolve(&doc, ".a").expect("leading dot names the empty key");
    assert_eq!(found.text, "9");
    let plain = sample();
    assert!(resolve(&plain, ".").is_none());
}

#[test]
fn resolve_returns_intermediate_table() {
    let doc = sample();
    let found = resolve(&doc, "a.b").expect("table node");
    assert!(found.entries.is_some());
    assert_eq!(found.entries.as_ref().unwrap()[0].0, "c");
}

#[test]
fn split_path_splits_on_every_dot() {
    let segs = split_path("a.b.c");
    let segs: Vec<&str> = segs.iter().map(|s| s.as_str()).collect();
    assert_eq!(segs, vec!["a", "b", "c"]);
    let segs = split_path("a..b.");
    let segs: Vec<&str> = segs.iter().map(|s| s.as_str()).collect();
    assert_eq!(segs, vec!["a", "", "b", ""]);
    let segs = split_path("plain");
    let segs: Vec<&str> = segs.iter().map(|s| s.as_str()).collect();
    assert_eq!(segs, vec!["plain"]);
}

#[test]
fn lookup_finds_first_matching_key() {
    let doc = table(vec![("k", leaf("first")), ("k", leaf("second"))]);
    let found = lookup(&doc, "k").expect("key present");
    assert_eq!(found.text, "first");
    assert!(lookup(&doc, "missing").is_none());
    let scalar = leaf("5");
    assert!(lookup(&scalar, "k").is_none());
}
