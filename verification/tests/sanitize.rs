use bargo::sanitize::{sanitize_lowered, sanitize_name};

fn is_identifier(s: &str) -> bool {
    s.chars().all(|c| c.is_ascii_lowercase() || c.is_ascii_digit() || c == '.' || c == '-')
        && s.chars().count() <= 253
        && !s.starts_with('-')
        && !s.ends_with('-')
}

#[test]
fn sanitize_lowercases_and_replaces() {
    assert_eq!(sanitize_name("My App_v2"), "my-app-v2");
    assert_eq!(sanitize_name("shop"), "shop");
    assert_eq!(sanitize_name("api.v1"), "api.v1");
}

#[test]
fn sanitize_replaces_each_character_by_one_dash() {
    assert_eq!(sanitize_name("a\u{e9}b"), "a-b");
    assert_eq!(sanitize_name("a\nb"), "a-b");
    assert_eq!(sanitize_name("a  b"), "a--b");
    assert_eq!(sanitize_name("a$b"), "a-b");
}

#[test]
fn sanitize_uses_unicode_lowercase() {
    // The Kelvin sign lower-cases to the ASCII letter k.
    assert_eq!(sanitize_name("\u{212a}8s"), "k8s");
    // Capital I with dot above lower-cases to two characters.
    assert_eq!(sanitize_name("a\u{130}b"), "ai-b");
}

#[test]
fn sanitize_trims_dashes() {
    assert_eq!(sanitize_name("--shop--"), "shop");
    assert_eq!(sanitize_name("___"), "");
    assert_eq!(sanitize_name(""), "");
    assert_eq!(sanitize_name("-"), "");
    assert_eq!(sanitize_lowered("-a-"), "a");
    assert_eq!(sanitize_lowered("."), ".");
}

#[test]
fn sanitize_lowered_does_not_lowercase() {
    assert_eq!(sanitize_lowered("aBc"), "a-c");
}

#[test]
fn sanitize_truncates_to_253_characters() {
    let long = "a".repeat(300);
    assert_eq!(sanitize_name(&long), "a".repeat(253));
    let exact = "b".repeat(253);
    assert_eq!(sanitize_name(&exact), exact);
}

#[test]
fn sanitize_truncates_before_trimming() {
    let long = "a".repeat(252) + "-b";
    assert_eq!(sanitize_name(&long), "a".repeat(252));
    let dashes = "-".repeat(260) + "x";
    assert_eq!(sanitize_name(&dashes), "");
}

#[test]
fn sanitize_yields_identifiers() {
    for name in ["Shop", "api.v1", "\u{dc}n\u{ef}code", "a b c", "", "-", "K8S", "--", "x_y", "\u{212a}"] {
        let out = sanitize_name(name);
        assert!(is_identifier(&out), "{:?} -> {:?}", name, out);
    }
    assert!(is_identifier(&sanitize_name(&"\u{e9}".repeat(1000))));
}

#[test]
fn sanitize_is_idempotent_on_samples() {
    for name in ["Shop", "api.v1", "\u{dc}n\u{ef}code", "a b c", "", "-", "K8S", "a-.-b"] {
        let once = sanitize_name(name);
        assert_eq!(sanitize_name(&once), once);
    }
}
