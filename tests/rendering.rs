use base16_builder::render::render_template;
use base16_builder::scheme::Scheme;

fn scheme(slug: &str, colors: &[(usize, &str)]) -> Scheme {
    let mut c: Vec<Option<String>> = vec![None; 16];
    for (i, v) in colors {
        c[*i] = Some(v.to_string());
    }
    Scheme {
        name: "Ocean".to_string(),
        author: "Chris".to_string(),
        slug: slug.to_string(),
        colors: c,
    }
}

#[test]
fn unknown_token_is_kept() {
    let s = scheme("ocean", &[(0, "2b303b")]);
    let out = render_template("a {{unknown-token}} b", &s).unwrap();
    assert_eq!(out, "a {{unknown-token}} b");
}

#[test]
fn every_occurrence_is_replaced() {
    let s = scheme("ocean", &[]);
    let out = render_template("{{scheme-name}}-{{scheme-name}}-{{scheme-name}}", &s).unwrap();
    assert_eq!(out, "Ocean-Ocean-Ocean");
}

#[test]
fn global_placeholders() {
    let s = scheme("ocean", &[]);
    let out = render_template("{{scheme-author}} {{scheme-slug}}", &s).unwrap();
    assert_eq!(out, "Chris base16-ocean");
}

#[test]
fn slot_placeholders() {
    let s = scheme("ocean", &[(0, "2b303b"), (13, "8fa1b3")]);
    let t = "{{base00-hex}} {{base00-hex-r}}{{base00-hex-g}}{{base00-hex-b}} \
             {{base0D-hex-bgr}} {{base0D-dec-r}}{{base0D-dec-g}}{{base0D-dec-b}}";
    let out = render_template(t, &s).unwrap();
    assert_eq!(out, "2b303b 2b303b b3a18f 000");
}

#[test]
fn unset_slot_leaves_its_tokens() {
    let s = scheme("ocean", &[(0, "2b303b")]);
    let out = render_template("{{base01-hex}} {{base00-hex}}", &s).unwrap();
    assert_eq!(out, "{{base01-hex}} 2b303b");
}

#[test]
fn white_renders_decimal_ones() {
    let s = scheme("ocean", &[(7, "FFFFFF")]);
    let out = render_template("{{base07-dec-r}}{{base07-dec-g}}{{base07-dec-b}}", &s).unwrap();
    assert_eq!(out, "111");
}

#[test]
fn malformed_slot_fails_render() {
    let s = scheme("ocean", &[(0, "2b303b"), (3, "zzz"), (5, "nope")]);
    let e = render_template("{{base00-hex}}", &s).unwrap_err();
    assert_eq!(e.slot, "base03");
    assert_eq!(e.value, "zzz");
}

#[test]
fn empty_template_renders_empty() {
    let s = scheme("ocean", &[(0, "2b303b")]);
    assert_eq!(render_template("", &s).unwrap(), "");
}
