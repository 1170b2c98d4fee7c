use rust_esp_starter::text::{char_is_whitespace, decimal_string, split_words, to_chars, trim};

#[test]
fn whitespace_is_what_std_calls_whitespace() {
    let mut code: u32 = 0;
    while code <= 0x10ffff {
        if let Some(c) = char::from_u32(code) {
            assert_eq!(char_is_whitespace(c), c.is_whitespace(), "U+{:04X}", code);
        }
        code += 1;
    }
}

#[test]
fn trim_matches_std() {
    for s in ["", " ", "a", " a", "a ", "  a b  ", "\t\nx y\r\n", "\u{3000}x\u{a0}", "   "] {
        assert_eq!(trim(s), s.trim());
    }
}

#[test]
fn split_words_matches_std() {
    for s in ["", " ", "a", " a", "a ", "  a b  ", "one\ttwo\nthree", "\u{3000}x\u{a0}y", "a  b   c"] {
        let expected: Vec<String> = s.split_whitespace().map(|w| w.to_string()).collect();
        assert_eq!(split_words(s), expected);
    }
}

#[test]
fn to_chars_lists_the_characters() {
    assert_eq!(to_chars("a\u{e9}b"), vec!['a', '\u{e9}', 'b']);
    assert!(to_chars("").is_empty());
}

#[test]
fn decimal_string_renders_numbers() {
    assert_eq!(decimal_string(0), "0");
    assert_eq!(decimal_string(7), "7");
    assert_eq!(decimal_string(10), "10");
    assert_eq!(decimal_string(12345), "12345");
    assert_eq!(decimal_string(1000000), "1000000");
    assert_eq!(decimal_string(u64::MAX), "18446744073709551615");
    for n in 0..2000u64 {
        assert_eq!(decimal_string(n), n.to_string());
    }
}
