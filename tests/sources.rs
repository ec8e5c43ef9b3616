use base16_builder::sources::{
    clone_destination, parse_repositories, parse_sources, repositories_from_entries,
    sources_from_entries, SourcesError,
};
use base16_builder::yaml::Node;
use base16_builder::util::{color_code, colored, home};

#[test]
fn source_list_is_read() {
    let s = parse_sources("schemes: https://s.example/list\ntemplates: https://t.example/list\n").unwrap();
    assert_eq!(s.schemes, "https://s.example/list");
    assert_eq!(s.templates, "https://t.example/list");
}

#[test]
fn source_list_needs_both_keys() {
    match parse_sources("schemes: a\n") {
        Err(SourcesError::MissingKey { key }) => assert_eq!(key, "templates"),
        other => panic!("{:?}", other),
    }
    match parse_sources("templates: a\n") {
        Err(SourcesError::MissingKey { key }) => assert_eq!(key, "schemes"),
        other => panic!("{:?}", other),
    }
}

#[test]
fn repository_list_is_read() {
    let r = parse_repositories("vim: https://v.example\nkitty: https://k.example\n").unwrap();
    assert_eq!(r, vec![
        ("vim".to_string(), "https://v.example".to_string()),
        ("kitty".to_string(), "https://k.example".to_string()),
    ]);
    assert!(matches!(parse_repositories("vim: [1]\n"), Err(SourcesError::BadEntry { position: 0 })));
}

#[test]
fn clone_destination_joins() {
    assert_eq!(clone_destination("templates", "vim"), "templates/vim");
}

#[test]
fn home_replaces_tilde() {
    assert_eq!(home("~/themes/~x", "/home/me"), "/home/me/themes//home/mex");
    assert_eq!(home("plain", "/home/me"), "plain");
}

#[test]
fn color_codes() {
    assert_eq!(color_code("red"), "\x1b[0;31m");
    assert_eq!(color_code("green"), "\x1b[0;32m");
    assert_eq!(color_code("yellow"), "\x1b[0;33m");
    assert_eq!(color_code("blue"), "");
    assert_eq!(colored("green", "ok"), "\x1b[0;32mok\x1b[0m");
}

fn text(s: &str) -> Node {
    Node::Text(s.to_string())
}

#[test]
fn sources_from_parsed_entries() {
    let es = vec![(text("templates"), text("t")), (text("schemes"), text("s"))];
    let s = sources_from_entries(&es).unwrap();
    assert_eq!(s.templates, "t");
    assert_eq!(s.schemes, "s");
    let es = vec![(text("templates"), Node::Other), (text("schemes"), text("s"))];
    assert!(matches!(sources_from_entries(&es), Err(SourcesError::MissingKey { .. })));
}

#[test]
fn repositories_from_parsed_entries() {
    let es = vec![(text("a"), text("u1")), (Node::Other, text("u2"))];
    assert!(matches!(repositories_from_entries(&es), Err(SourcesError::BadEntry { position: 1 })));
    let r = repositories_from_entries(&es[..1].iter().map(|(k, v)| (clone_node(k), clone_node(v))).collect()).unwrap();
    assert_eq!(r, vec![("a".to_string(), "u1".to_string())]);
}

fn clone_node(n: &Node) -> Node {
    match n {
        Node::Text(s) => Node::Text(s.clone()),
        _ => Node::Other,
    }
}

#[test]
fn parse_errors_of_source_lists() {
    assert!(matches!(parse_sources("a: [b"), Err(SourcesError::Parse(_))));
    assert!(matches!(parse_sources(""), Err(SourcesError::NoDocument)));
    assert!(matches!(parse_repositories("- a"), Err(SourcesError::NotAMapping)));
}
