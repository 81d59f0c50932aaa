use carbonado_node::name::{canonicalize, escape_text, has_well_formed_escapes, reserved, NameError};

fn expected_for(raw: &str) -> String {
    match canonicalize(raw) {
        Err(NameError::AmbiguousName { got, expected }) => {
            assert_eq!(got, raw);
            expected
        }
        other => panic!("{raw:?} should be ambiguous, got {other:?}"),
    }
}

#[test]
fn a_name_with_a_space_is_refused_with_its_canonical_form() {
    assert_eq!(expected_for("my file.txt"), "my%20file.txt");
    assert!(canonicalize("my%20file.txt").is_ok());
}

#[test]
fn canonical_names_are_accepted() {
    for name in ["", "a", "file.txt", "my%20file.txt", "a%26b%3Dc%2Bd", "%C3%A9t%C3%A9", "x/y~z!*'()"] {
        assert!(canonicalize(name).is_ok(), "{name:?}");
    }
}

#[test]
fn the_canonical_form_of_an_ambiguous_name_is_accepted() {
    for name in ["my file.txt", "a&b=c+d", "été", "tab\there", "%41bc", "my%2ffile", "a%2Fb"] {
        let expected = expected_for(name);
        assert!(canonicalize(&expected).is_ok(), "{expected:?}");
    }
}

#[test]
fn reserved_characters_are_escaped_in_uppercase() {
    assert_eq!(expected_for("a&b=c+d"), "a%26b%3Dc%2Bd");
    assert_eq!(expected_for("été"), "%C3%A9t%C3%A9");
    assert_eq!(expected_for("tab\there"), "tab%09here");
    assert_eq!(expected_for("del\u{7f}"), "del%7F");
}

#[test]
fn needless_and_lowercase_escapes_are_ambiguous() {
    assert_eq!(expected_for("%41bc"), "Abc");
    assert_eq!(expected_for("my%2ffile"), "my/file");
    assert_eq!(expected_for("%c3%a9"), "%C3%A9");
    assert_eq!(expected_for("a%20b c"), "a%20b%20c");
}

#[test]
fn an_escaped_percent_has_no_canonical_form() {
    assert_eq!(expected_for("100%25"), "100%");
    assert!(matches!(canonicalize("100%"), Err(NameError::MalformedEncoding)));
}

#[test]
fn a_percent_that_opens_no_escape_is_malformed() {
    for name in ["%", "100%", "%4", "%zz", "a%2", "%%41", "%4g", "ab%"] {
        assert!(matches!(canonicalize(name), Err(NameError::MalformedEncoding)), "{name:?}");
        assert!(!has_well_formed_escapes(name));
    }
    for name in ["", "abc", "%41", "%4a%4A", "a%20b"] {
        assert!(has_well_formed_escapes(name));
    }
}

#[test]
fn escapes_that_are_not_utf8_are_malformed() {
    for name in ["%FF", "%C3", "%C3%28", "a%80", "%ED%A0%80"] {
        assert!(matches!(canonicalize(name), Err(NameError::MalformedEncoding)), "{name:?}");
    }
}

#[test]
fn escape_text_writes_every_reserved_byte_as_an_escape() {
    assert_eq!(escape_text("my file.txt"), "my%20file.txt");
    assert_eq!(escape_text(""), "");
    assert_eq!(escape_text("plain-Name_1.bin"), "plain-Name_1.bin");
    assert_eq!(escape_text("\u{0}\u{1f} &+=\u{7f}"), "%00%1F%20%26%2B%3D%7F");
    assert_eq!(escape_text("%"), "%");
    assert_eq!(escape_text("日本"), "%E6%97%A5%E6%9C%AC");
}

#[test]
fn the_reserved_set_is_controls_space_three_marks_and_non_ascii() {
    for b in 0u8..=255 {
        let expected = b < 0x20 || b == b' ' || b == b'&' || b == b'+' || b == b'=' || b >= 0x7f;
        assert_eq!(reserved(b), expected, "{b:#x}");
    }
}

#[test]
fn texts_are_the_same_only_character_for_character() {
    assert!(carbonado_node::text::same_text("", ""));
    assert!(carbonado_node::text::same_text("été", "été"));
    assert!(!carbonado_node::text::same_text("abc", "abd"));
    assert!(!carbonado_node::text::same_text("abc", "ab"));
    assert!(carbonado_node::text::same_bytes(&[1, 2], &[1, 2]));
    assert!(!carbonado_node::text::same_bytes(&[1, 2], &[1, 3]));
    assert!(!carbonado_node::text::same_bytes(&[1, 2], &[1]));
}
