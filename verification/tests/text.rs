use tower_hil::text::{
    begins_with, chars_of, contains, cut_first_word, decimal_text, find_class, find_text,
    is_numeric, is_white_space, join, split_lines, trim, CharClass,
};

#[test]
fn white_space_is_the_unicode_property() {
    for code in 0..=0x10_ffffu32 {
        if let Some(c) = char::from_u32(code) {
            assert_eq!(is_white_space(c), c.is_whitespace(), "U+{code:04X}");
        }
    }
}

#[test]
fn numeric_characters_are_those_of_a_number() {
    for c in "0123456789.-+eE".chars() {
        assert!(is_numeric(c));
    }
    for c in "/:,fn \u{661}".chars() {
        assert!(!is_numeric(c));
    }
}

#[test]
fn lines_split_as_in_std() {
    for text in ["", "\n", "\r\n", "a", "a\n", "a\r\nb", "a\n\nb\r", "\r", "a\rb\n\r\n", "µ\n—\r\n"] {
        let expected: Vec<&str> = text.lines().collect();
        assert_eq!(split_lines(text), expected, "{text:?}");
    }
}

#[test]
fn words_and_trimming_follow_std() {
    for text in ["", " ", "a", " a b ", "\t\u{3000}x\u{a0}y\n", "µ—", " \r\n", "end "] {
        assert_eq!(cut_first_word(text), text.split_whitespace().next(), "{text:?}");
        assert_eq!(trim(text), text.trim(), "{text:?}");
    }
}

#[test]
fn searching_follows_std() {
    let hay = "a—bab—c";
    for needle in ["", "a", "b—", "bab", "c", "d", "a—bab—c!", "ab"] {
        assert_eq!(contains(hay, needle), hay.contains(needle), "{needle:?}");
        assert_eq!(begins_with(hay, needle), hay.starts_with(needle), "{needle:?}");
    }
    let chars = chars_of(hay);
    assert_eq!(chars, hay.chars().collect::<Vec<char>>());
    assert_eq!(find_text(&chars, &vec!['b'], 0), Some(2));
    assert_eq!(find_text(&chars, &vec!['b'], 3), Some(4));
    assert_eq!(find_text(&chars, &vec!['b'], 5), None);
    assert_eq!(find_class(&chars, CharClass::Colon, 0), 7);
    assert_eq!(find_class(&chars, CharClass::NotNumeric, 1), 1);
    assert!(CharClass::LineFeed.holds('\n'));
}

#[test]
fn numbers_and_lists_are_written_as_in_std() {
    for n in [0u32, 7, 10, 99, 100, 1800, 65_535, u32::MAX] {
        assert_eq!(decimal_text(n), n.to_string());
    }
    let parts = vec!["a".to_string(), String::new(), "b".to_string()];
    assert_eq!(join(&parts, "\n"), "a\n\nb");
    assert_eq!(join(&Vec::new(), "\n"), "");
}
