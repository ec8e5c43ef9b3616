use base16_builder::matrix::build;
use base16_builder::scheme::Scheme;
use base16_builder::template::Template;

fn scheme(slug: &str, base00: &str) -> Scheme {
    let mut colors: Vec<Option<String>> = vec![None; 16];
    colors[0] = Some(base00.to_string());
    Scheme { name: slug.to_uppercase(), author: String::new(), slug: slug.to_string(), colors }
}

fn template(name: &str, output: &str, extension: &str) -> Template {
    Template {
        contents: "{{scheme-slug}}:{{base00-hex}}".to_string(),
        program_name: "app".to_string(),
        extension: extension.to_string(),
        output_path: output.to_string(),
        name: name.to_string(),
    }
}

#[test]
fn two_palettes_give_two_files() {
    let ts = vec![template("default", "x", ".conf")];
    let ss = vec![scheme("one", "111111"), scheme("two", "222222")];
    let out = build(&ts, &ss, &None, "out", &None);
    assert_eq!(out.len(), 2);
    assert_eq!(out[0].dir, "out/x");
    assert_eq!(out[0].path, "out/x/base16-one.conf");
    assert_eq!(out[1].path, "out/x/base16-two.conf");
    assert_eq!(out[0].contents.as_ref().unwrap(), "base16-one:111111");
    assert_eq!(out[1].contents.as_ref().unwrap(), "base16-two:222222");
}

#[test]
fn bad_palette_fails_only_its_pairs() {
    let ts = vec![template("a", "x", ".a"), template("b", "y", ".b")];
    let ss = vec![scheme("good", "123456"), scheme("bad", "zzz")];
    let out = build(&ts, &ss, &None, "out", &None);
    assert_eq!(out.len(), 4);
    assert!(out[0].contents.is_ok());
    assert!(out[1].contents.is_err());
    assert!(out[2].contents.is_ok());
    assert!(out[3].contents.is_err());
    assert_eq!(out[2].path, "out/y/base16-good.b");
}

#[test]
fn template_filter_and_fixed_file() {
    let ts = vec![template("a", "x", ".a"), template("b", "y", ".b")];
    let ss = vec![scheme("one", "111111")];
    let out = build(&ts, &ss, &Some("b".to_string()), "root", &Some("theme.txt".to_string()));
    assert_eq!(out.len(), 1);
    assert_eq!(out[0].template, 1);
    assert_eq!(out[0].scheme, 0);
    assert_eq!(out[0].dir, "root");
    assert_eq!(out[0].path, "root/theme.txt");
}

#[test]
fn rebuild_is_identical() {
    let ts = vec![template("a", "x", ".a")];
    let ss = vec![scheme("one", "111111"), scheme("two", "abcdef")];
    let first = build(&ts, &ss, &None, "out", &None);
    let second = build(&ts, &ss, &None, "out", &None);
    assert_eq!(first.len(), second.len());
    for (a, b) in first.iter().zip(second.iter()) {
        assert_eq!(a.path, b.path);
        assert_eq!(a.contents.as_ref().unwrap(), b.contents.as_ref().unwrap());
    }
}

#[test]
fn empty_inputs_build_nothing() {
    let out = build(&Vec::new(), &vec![scheme("one", "111111")], &None, "out", &None);
    assert!(out.is_empty());
    let out = build(&vec![template("a", "x", "")], &Vec::new(), &None, "out", &None);
    assert!(out.is_empty());
}
