use base16_builder::scheme::{
    create_scheme, identifier_of, is_scheme_file, stem_of, underscore_spaces, SchemeError,
};
use base16_builder::template::{
    create_templates, manifest_paths, parse_manifest, program_name, template_path, ManifestEntry,
    ManifestError,
};
use base16_builder::yaml::{parse_yaml, Node};

#[test]
fn scheme_document_is_read() {
    let text = "scheme: \"Ocean\"\nauthor: \"Chris Kempson\"\nbase00: \"2b303b\"\nbase0F: \"ab7967\"\nextra: 5\n";
    let s = create_scheme("schemes/base16/ocean.yaml", text).unwrap();
    assert_eq!(s.name, "Ocean");
    assert_eq!(s.author, "Chris Kempson");
    assert_eq!(s.slug, "ocean");
    assert_eq!(s.colors.len(), 16);
    assert_eq!(s.colors[0].as_deref(), Some("2b303b"));
    assert_eq!(s.colors[15].as_deref(), Some("ab7967"));
    assert!(s.colors[1].is_none());
}

#[test]
fn later_key_wins() {
    let text = "base00: \"111111\"\nbase00: \"222222\"\n";
    let s = create_scheme("a.yml", text).unwrap();
    assert_eq!(s.colors[0].as_deref(), Some("222222"));
}

#[test]
fn identifier_is_lowercased_stem() {
    assert_eq!(identifier_of("~/schemes/x/My Dark Theme.yaml"), "my_dark_theme");
    assert_eq!(identifier_of("OCEAN.yml"), "ocean");
    assert_eq!(identifier_of("dir/tomorrow.night.yaml"), "tomorrow.night");
    assert_eq!(identifier_of(".hidden"), ".hidden");
}

#[test]
fn stem_and_spaces() {
    assert_eq!(stem_of("a/b/Solarized Dark.yaml"), "Solarized Dark");
    assert_eq!(stem_of("a/b/"), "");
    assert_eq!(stem_of("noext"), "noext");
    assert_eq!(underscore_spaces("a b  c"), "a_b__c");
}

#[test]
fn scheme_value_must_be_text() {
    match create_scheme("a.yaml", "base00: 123456\n") {
        Err(SchemeError::NotText { key }) => assert_eq!(key, "base00"),
        other => panic!("{:?}", other),
    }
}

#[test]
fn unknown_non_text_value_is_ignored() {
    let s = create_scheme("a.yaml", "scheme: \"A\"\nslug: 5\n").unwrap();
    assert_eq!(s.name, "A");
}

#[test]
fn scheme_errors() {
    assert!(matches!(create_scheme("a.yaml", "key: [unclosed"), Err(SchemeError::Parse(_))));
    assert!(matches!(create_scheme("a.yaml", ""), Err(SchemeError::NoDocument)));
    assert!(matches!(create_scheme("a.yaml", "- a\n- b\n"), Err(SchemeError::NotAMapping)));
}

#[test]
fn scheme_file_extensions() {
    assert!(is_scheme_file("ocean.yaml"));
    assert!(is_scheme_file("ocean.yml"));
    assert!(!is_scheme_file("ocean.json"));
    assert!(!is_scheme_file("README"));
    assert!(!is_scheme_file(".yaml"));
}

#[test]
fn yaml_is_parsed_into_nodes() {
    let docs = parse_yaml("a: \"x\"\nb:\n  - 1\n").unwrap();
    assert_eq!(docs.len(), 1);
    match &docs[0] {
        Node::Mapping(es) => {
            assert_eq!(es.len(), 2);
            assert!(matches!(&es[0], (Node::Text(k), Node::Text(v)) if k == "a" && v == "x"));
            assert!(matches!(&es[1], (Node::Text(k), Node::List(l)) if k == "b" && l.len() == 1));
        }
        other => panic!("{:?}", other),
    }
}

#[test]
fn manifest_entries_are_read() {
    let text = "default:\n  extension: .vim\n  output: colors\nplain:\n  output: out\n";
    let es = parse_manifest(text).unwrap();
    assert_eq!(es.len(), 2);
    assert_eq!(es[0].name, "default");
    assert_eq!(es[0].output, "colors");
    assert_eq!(es[0].extension, ".vim");
    assert_eq!(es[1].name, "plain");
    assert_eq!(es[1].extension, "");
}

#[test]
fn manifest_entry_needs_output() {
    let text = "a:\n  output: x\nb:\n  extension: .y\n";
    assert!(matches!(parse_manifest(text), Err(ManifestError::BadEntry { position: 1 })));
    assert!(matches!(parse_manifest("a: b\n"), Err(ManifestError::BadEntry { position: 0 })));
    assert!(matches!(parse_manifest("[1, 2]"), Err(ManifestError::NotAMapping)));
}

#[test]
fn collection_paths() {
    assert_eq!(program_name("templates/vim/"), "vim");
    assert_eq!(program_name("templates/vim"), "vim");
    assert_eq!(program_name("vim"), "vim");
    assert_eq!(template_path("t/vim", "default"), "t/vim/templates/default.mustache");
    let (yaml, yml) = manifest_paths("t/vim");
    assert_eq!(yaml, "t/vim/templates/config.yaml");
    assert_eq!(yml, "t/vim/templates/config.yml");
}

fn entry(name: &str, output: &str, extension: &str) -> ManifestEntry {
    ManifestEntry { name: name.to_string(), output: output.to_string(), extension: extension.to_string() }
}

#[test]
fn missing_body_skips_only_that_template() {
    let entries = vec![entry("a", "oa", ".a"), entry("b", "ob", ""), entry("c", "oc", ".c")];
    let bodies = vec![Some("A".to_string()), None, Some("C".to_string())];
    let c = create_templates("templates/kitty", &entries, &bodies);
    assert_eq!(c.templates.len(), 2);
    assert_eq!(c.templates[0].name, "a");
    assert_eq!(c.templates[0].contents, "A");
    assert_eq!(c.templates[0].output_path, "oa");
    assert_eq!(c.templates[0].extension, ".a");
    assert_eq!(c.templates[0].program_name, "kitty");
    assert_eq!(c.templates[1].name, "c");
    assert_eq!(c.missing, vec!["b".to_string()]);
}
