use academy_engine::text::{count_words, is_whitespace};

#[test]
fn whitespace_matches_std() {
    for c in ['\t', '\n', '\u{b}', '\u{c}', '\r', ' ', '\u{85}', '\u{a0}', '\u{1680}', '\u{2000}',
        '\u{200a}', '\u{2028}', '\u{2029}', '\u{202f}', '\u{205f}', '\u{3000}']
    {
        assert!(is_whitespace(c));
    }
    for c in ['a', '0', '\u{200b}', '\u{180e}', '\u{feff}', '\u{8}', '\u{e}', '\u{1f}'] {
        assert!(!is_whitespace(c));
    }
    for code in 0u32..0x3100 {
        if let Some(c) = char::from_u32(code) {
            assert_eq!(is_whitespace(c), c.is_whitespace(), "U+{code:04X}");
        }
    }
}

#[test]
fn words_split_on_unicode_whitespace() {
    assert_eq!(count_words("one\u{3000}two\u{a0}three"), 3);
    assert_eq!(count_words("  "), 0);
    assert_eq!(count_words("zero\u{200b}width"), 1);
}
