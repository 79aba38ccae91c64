use simpleasm::chars::{
    chars_of, is_ascii_digit, is_ascii_punctuation, is_digit_in, str_eq, string_of,
    value_of_digit,
};

fn sample() -> Vec<char> {
    (0u32..0x400).filter_map(char::from_u32).collect()
}

#[test]
fn digit_classes_agree_with_the_standard_library() {
    for c in sample() {
        assert_eq!(is_ascii_digit(c), c.is_ascii_digit(), "{c:?}");
        assert_eq!(is_digit_in(c, 10), c.is_ascii_digit(), "{c:?}");
        assert_eq!(is_digit_in(c, 16), c.is_ascii_hexdigit(), "{c:?}");
        assert_eq!(is_digit_in(c, 8), c.is_digit(8), "{c:?}");
        assert_eq!(is_digit_in(c, 2), c.is_digit(2), "{c:?}");
    }
}

#[test]
fn punctuation_agrees_with_the_standard_library() {
    for c in sample() {
        assert_eq!(is_ascii_punctuation(c), c.is_ascii_punctuation(), "{c:?}");
    }
}

#[test]
fn digit_values() {
    for c in sample() {
        if let Some(value) = c.to_digit(16) {
            assert_eq!(value_of_digit(c), value as u64, "{c:?}");
        }
    }
    assert_eq!(value_of_digit('0'), 0);
    assert_eq!(value_of_digit('9'), 9);
    assert_eq!(value_of_digit('a'), 10);
    assert_eq!(value_of_digit('F'), 15);
}

#[test]
fn texts_and_their_characters() {
    let text = "mov \u{e9}\u{4e2d}, r0";
    assert_eq!(chars_of(text), text.chars().collect::<Vec<char>>());
    assert_eq!(string_of(&chars_of(text)), text);
    assert_eq!(string_of(&vec![]), "");
}

#[test]
fn text_equality() {
    assert!(str_eq("", ""));
    assert!(str_eq("mov", "mov"));
    assert!(!str_eq("mov", "mot"));
    assert!(!str_eq("mov", "mo"));
    assert!(!str_eq("", "m"));
    assert!(str_eq("\u{e9}", "\u{e9}"));
    assert!(!str_eq("\u{e9}", "e"));
}
