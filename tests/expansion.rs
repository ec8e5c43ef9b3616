use base16_builder::color::expand;

fn value(pairs: &[(String, String)], name: &str) -> String {
    pairs.iter().find(|(n, _)| n == name).map(|(_, v)| v.clone()).unwrap()
}

#[test]
fn hex_placeholder_is_the_color() {
    let pairs = expand("base00", "1a2B3c").unwrap();
    assert_eq!(value(&pairs, "base00-hex"), "1a2B3c");
    assert_eq!(value(&pairs, "base00-hex-r"), "1a");
    assert_eq!(value(&pairs, "base00-hex-g"), "2B");
    assert_eq!(value(&pairs, "base00-hex-b"), "3c");
}

#[test]
fn decimal_channels_divide_by_255() {
    let pairs = expand("base08", "FF0000").unwrap();
    assert_eq!(value(&pairs, "base08-dec-r"), "1");
    assert_eq!(value(&pairs, "base08-dec-g"), "0");
    assert_eq!(value(&pairs, "base08-dec-b"), "0");
}

#[test]
fn decimal_channels_are_zero_or_one() {
    let pairs = expand("base01", "fEff80").unwrap();
    assert_eq!(value(&pairs, "base01-dec-r"), "0");
    assert_eq!(value(&pairs, "base01-dec-g"), "1");
    assert_eq!(value(&pairs, "base01-dec-b"), "0");
}

#[test]
fn bgr_reverses_channels() {
    let pairs = expand("base0D", "1234AB").unwrap();
    assert_eq!(value(&pairs, "base0D-hex-bgr"), "AB3412");
}

#[test]
fn expansion_has_eight_placeholders() {
    let pairs = expand("base0F", "000000").unwrap();
    let names: Vec<&str> = pairs.iter().map(|(n, _)| n.as_str()).collect();
    assert_eq!(
        names,
        vec![
            "base0F-hex",
            "base0F-hex-r",
            "base0F-hex-g",
            "base0F-hex-b",
            "base0F-dec-r",
            "base0F-dec-g",
            "base0F-dec-b",
            "base0F-hex-bgr"
        ]
    );
}

#[test]
fn malformed_color_is_rejected() {
    let e = expand("base00", "zzz").unwrap_err();
    assert_eq!(e.slot, "base00");
    assert_eq!(e.value, "zzz");
    assert!(expand("base00", "12345g").is_err());
    assert!(expand("base00", "1234567").is_err());
    assert!(expand("base00", "").is_err());
}
