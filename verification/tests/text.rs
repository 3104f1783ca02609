use ryu_clips::text::{
    contains_char, contains_double, decimal_text, is_white_space, same_bytes, same_text,
    split_bytes, starts_with, trim, trim_or_none, two_digit_text,
};

#[test]
fn white_space_is_that_of_the_standard_library() {
    for c in '\0'..=char::MAX {
        assert_eq!(is_white_space(c), c.is_whitespace(), "on {c:?}");
    }
}

#[test]
fn trim_does_what_the_standard_library_does() {
    let cases: Vec<&str> = vec![
        "", " ", "a", " a", "a ", "  a b  ", "\t\n a\u{3000}", "\u{a0}\u{85}", "\u{200b}a", "\u{e9} ",
    ];
    for case in cases {
        assert_eq!(trim(case), case.trim(), "on {case:?}");
    }
}

#[test]
fn trim_or_none_drops_blanks() {
    assert_eq!(trim_or_none(None), None);
    assert_eq!(trim_or_none(Some(" \u{2003}")), None);
    assert_eq!(trim_or_none(Some(" a b ")).as_deref(), Some("a b"));
}

#[test]
fn prefixes_are_compared_by_characters() {
    assert!(starts_with("http://x", "http://"));
    assert!(starts_with("x", ""));
    assert!(!starts_with("htt", "http://"));
    assert!(!starts_with("HTTP://x", "http://"));
    assert!(starts_with("\u{e9}t", "\u{e9}"));
}

#[test]
fn texts_are_the_same_when_their_bytes_are() {
    assert!(same_text("\u{e9}", "\u{e9}"));
    assert!(!same_text("\u{e9}", "e"));
    assert!(!same_text("a", "ab"));
    assert!(same_bytes(b"ab", b"ab"));
    assert!(!same_bytes(b"ab", b"ac"));
}

#[test]
fn characters_are_found() {
    assert!(contains_char("a/b", '/'));
    assert!(!contains_char("ab", '/'));
    assert!(contains_double("a..b", '.'));
    assert!(contains_double("...", '.'));
    assert!(!contains_double(".a.", '.'));
    assert!(!contains_double(".", '.'));
    assert!(!contains_double("", '.'));
}

#[test]
fn bytes_are_split_as_the_standard_library_splits_them() {
    let cases: Vec<&str> = vec!["", ":", "a", "a:b", ":a:", "a::b", "ab:cd:ef"];
    for case in cases {
        let want: Vec<Vec<u8>> = case.split(':').map(|p| p.as_bytes().to_vec()).collect();
        assert_eq!(split_bytes(case.as_bytes(), b':'), want, "on {case:?}");
    }
}

#[test]
fn numbers_are_written_in_decimal() {
    let cases: Vec<u64> = vec![0, 5, 9, 10, 42, 99, 100, 1_234_567_890, u64::MAX];
    for n in cases {
        assert_eq!(decimal_text(n), format!("{n}"));
        assert_eq!(two_digit_text(n), format!("{n:02}"));
    }
}
