use r34_api::text::{chars_of, is_unicode_whitespace, join_strings, split_words, str_eq};

#[test]
fn whitespace_matches_std_for_every_char() {
    for u in 0u32..=0x10FFFF {
        if let Some(c) = char::from_u32(u) {
            assert_eq!(is_unicode_whitespace(c), c.is_whitespace(), "char {:x}", u);
        }
    }
}

#[test]
fn split_words_matches_std() {
    let samples = [
        "",
        " ",
        "one",
        "one two",
        "  leading and trailing  ",
        "tab\tnew\nline\r\ncr",
        "a\u{a0}b\u{3000}c\u{2009}d\u{85}e",
        "multiple     spaces   between",
        "日本 語",
    ];
    for s in samples {
        let expected: Vec<String> = s.split_whitespace().map(|w| w.to_string()).collect();
        assert_eq!(split_words(s), expected, "sample {:?}", s);
    }
}

#[test]
fn split_words_of_tags() {
    assert_eq!(split_words(" 1girl  solo blue_eyes "), vec!["1girl", "solo", "blue_eyes"]);
}

#[test]
fn str_eq_cases() {
    assert!(str_eq("", ""));
    assert!(str_eq("abc", "abc"));
    assert!(!str_eq("abc", "abd"));
    assert!(!str_eq("abc", "ab"));
    assert!(str_eq("é日", "é日"));
}

#[test]
fn join_matches_std() {
    let parts: Vec<String> = vec!["a".into(), "bc".into(), "".into(), "d".into()];
    assert_eq!(join_strings(&parts, " "), parts.join(" "));
    assert_eq!(join_strings(&parts, ", "), parts.join(", "));
    let none: Vec<String> = vec![];
    assert_eq!(join_strings(&none, " "), "");
    let one: Vec<String> = vec!["x".into()];
    assert_eq!(join_strings(&one, " "), "x");
}

#[test]
fn chars_of_keeps_order() {
    assert_eq!(chars_of("héllo"), vec!['h', 'é', 'l', 'l', 'o']);
}
