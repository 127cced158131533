use bargo::filters::{nindent, nindent_filter, space, strip, yaml_encode_filter, FilterError};

fn text(s: &str) -> serde_json::Value {
    serde_json::Value::String(s.to_string())
}

fn number(n: u64) -> serde_json::Value {
    serde_json::Value::from(n)
}

fn json(text: &str) -> serde_json::Value {
    serde_json::from_str(text).unwrap()
}

#[test]
fn nindent_indents_every_line() {
    assert_eq!(nindent("a\nb", 2), "\n  a\n  b");
    assert_eq!(nindent("a", 0), "\na");
    assert_eq!(nindent("", 3), "\n   ");
    assert_eq!(nindent("a\n", 1), "\n a\n ");
    assert_eq!(nindent("\n\n", 1), "\n \n \n ");
    assert_eq!(nindent("k: v\nl:\n  - x", 4), "\n    k: v\n    l:\n      - x");
}

#[test]
fn nindent_keeps_other_characters() {
    assert_eq!(nindent("\u{e9}\t\r\n\u{2028}", 1), "\n \u{e9}\t\r\n \u{2028}");
}

#[test]
fn nindent_agrees_with_replacing_line_breaks() {
    for (s, spaces) in [("a\nb\n\nc", 3usize), ("", 0), ("\n", 2), ("x", 5)] {
        let indent = format!("\n{}", " ".repeat(spaces));
        assert_eq!(nindent(s, spaces), format!("\n{}", s).replace("\n", &indent));
    }
}

#[test]
fn nindent_filter_needs_a_string() {
    let spaces = number(2);
    assert_eq!(nindent_filter(&serde_json::Value::Bool(true), Some(&spaces)).unwrap_err(), FilterError::IncorrectValue);
    assert_eq!(nindent_filter(&serde_json::Value::Null, None).unwrap_err(), FilterError::IncorrectValue);
    assert_eq!(nindent_filter(&json("[\"a\"]"), Some(&spaces)).unwrap_err(), FilterError::IncorrectValue);
}

#[test]
fn nindent_filter_needs_spaces() {
    let e = nindent_filter(&text("a"), None).unwrap_err();
    assert_eq!(e, FilterError::MissingSpaces);
    assert_eq!(e.message(), "Filter `nindent` expected an arg called `spaces`");
    assert!(FilterError::IncorrectValue.message().contains("`nindent`"));
    assert!(FilterError::IncorrectSpaces.message().contains("`nindent`"));
}

#[test]
fn nindent_filter_needs_an_unsigned_integer() {
    for bad in [json("-1"), json("2.0"), json("\"2\""), json("null"), json("[2]")] {
        assert_eq!(nindent_filter(&text("a"), Some(&bad)).unwrap_err(), FilterError::IncorrectSpaces);
    }
}

#[test]
fn nindent_filter_indents() {
    assert_eq!(nindent_filter(&text("a\nb"), Some(&number(3))).unwrap(), text("\n   a\n   b"));
}

#[test]
fn strip_removes_white_space_at_both_ends() {
    assert_eq!(strip("  a b \n"), "a b");
    assert_eq!(strip("\u{a0}\u{3000}x\u{2028}\t"), "x");
    assert_eq!(strip(" \n\t "), "");
    assert_eq!(strip(""), "");
    assert_eq!(strip("a"), "a");
}

#[test]
fn space_agrees_with_the_standard_library() {
    for code in 0u32..0x3100 {
        if let Some(c) = char::from_u32(code) {
            assert_eq!(space(c), c.is_whitespace(), "U+{:04X}", code);
        }
    }
    assert!(!space('\u{feff}'));
}

#[test]
fn strip_agrees_with_the_standard_library() {
    for s in ["", " ", "a", " a", "a ", "\n a\tb \r\n", "\u{85}x\u{1680}", "\u{200b}x"] {
        assert_eq!(strip(s), s.trim());
    }
}

#[test]
fn yaml_encode_filter_serializes_in_block_style_and_trims() {
    let value = json("{\"name\":\"api\",\"replicas\":2,\"ports\":[80,443],\"labels\":{\"tier\":\"web\"}}");
    assert_eq!(
        yaml_encode_filter(&value).unwrap(),
        text("labels:\n  tier: web\nname: api\nports:\n- 80\n- 443\nreplicas: 2")
    );
}

#[test]
fn yaml_encode_filter_on_scalars() {
    assert_eq!(yaml_encode_filter(&text("plain")).unwrap(), text("plain"));
    assert_eq!(yaml_encode_filter(&json("null")).unwrap(), text("null"));
    assert_eq!(yaml_encode_filter(&json("1.5")).unwrap(), text("1.5"));
    assert_eq!(yaml_encode_filter(&json("[]")).unwrap(), text("[]"));
}

#[test]
fn yaml_encode_filter_gives_the_same_text_for_the_same_value() {
    let value = json("{\"b\":[1,{\"c\":null}],\"a\":\"x\"}");
    assert_eq!(yaml_encode_filter(&value).unwrap(), yaml_encode_filter(&value.clone()).unwrap());
}
