use goodreads_search::text::{
    chars_of, decimal, digits_of, is_alnum_char, is_digit_char, is_space_char, join, slice_of,
    starts_with, string_of, string_of_range, trim,
};

#[test]
fn white_space_is_what_the_standard_calls_white_space() {
    for code in 0..=0x10ffffu32 {
        if let Some(c) = char::from_u32(code) {
            assert_eq!(is_space_char(c), c.is_whitespace(), "{:x}", code);
        }
    }
}

#[test]
fn digits_and_letters_are_the_ascii_ones() {
    for code in 0..=0x10ffffu32 {
        if let Some(c) = char::from_u32(code) {
            assert_eq!(is_digit_char(c), c.is_ascii_digit(), "{:x}", code);
            assert_eq!(is_alnum_char(c), c.is_ascii_alphanumeric(), "{:x}", code);
        }
    }
}

#[test]
fn strings_and_characters_convert_both_ways() {
    for text in ["", "abc", "Émile – 100€", "a\u{10ffff}b"] {
        let chars = chars_of(text);
        assert_eq!(chars, text.chars().collect::<Vec<char>>());
        assert_eq!(string_of(&chars), text);
    }
    let chars = chars_of("héllo");
    assert_eq!(string_of_range(&chars, 1, 4), "éll");
    assert_eq!(string_of_range(&chars, 2, 2), "");
    assert_eq!(slice_of(&chars, 0, 2), vec!['h', 'é']);
}

#[test]
fn trim_drops_white_space_at_both_ends() {
    for text in ["", " ", " a ", "\n\t a b \u{3000}", "a", "\u{a0}x\u{85}"] {
        assert_eq!(trim(text), text.trim(), "{:?}", text);
    }
}

#[test]
fn prefixes() {
    assert!(starts_with(&chars_of("https://x"), &chars_of("https://")));
    assert!(starts_with(&chars_of("abc"), &chars_of("")));
    assert!(starts_with(&chars_of("abc"), &chars_of("abc")));
    assert!(!starts_with(&chars_of("ab"), &chars_of("abc")));
    assert!(!starts_with(&chars_of("abd"), &chars_of("abc")));
}

#[test]
fn decimal_numerals() {
    let chars = chars_of("x0123456789y");
    assert_eq!(decimal(&chars, 1, 11), Some(123456789));
    assert_eq!(decimal(&chars, 1, 1), Some(0));
    assert_eq!(decimal(&chars, 5, 6), Some(4));
    assert_eq!(decimal(&chars_of("18446744073709551615"), 0, 20), Some(u64::MAX));
    assert_eq!(decimal(&chars_of("18446744073709551616"), 0, 20), None);
    assert_eq!(decimal(&chars_of("184467440737095516150"), 0, 21), None);
}

#[test]
fn numerals_of_numbers() {
    for n in [0u64, 1, 9, 10, 11, 99, 100, 101, 366, 1234567890, u64::MAX - 1, u64::MAX] {
        let digits = digits_of(n);
        assert_eq!(string_of(&digits), n.to_string());
        assert_eq!(decimal(&digits, 0, digits.len()), Some(n));
    }
}

#[test]
fn texts_are_joined_with_the_separator_between_them() {
    let texts = |parts: &[&str]| parts.iter().map(|p| p.to_string()).collect::<Vec<String>>();
    assert_eq!(join(&texts(&[]), ", "), "");
    assert_eq!(join(&texts(&["a"]), ", "), "a");
    assert_eq!(join(&texts(&["a", "b"]), ", "), "a, b");
    assert_eq!(join(&texts(&["", "b", ""]), "-"), "-b-");
    assert_eq!(join(&texts(&["a", "b", "c"]), ""), "abc");
}
