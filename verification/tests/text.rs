use forgekit_core::text::{
    char_is_space, chars_trim, contains, ends_with, find_char, join2, join3, remove_all,
    replace_all, same_text, starts_with, to_chars, from_chars,
};

#[test]
fn substring_checks() {
    assert!(contains("forgekit-json", "kit-j"));
    assert!(contains("abc", ""));
    assert!(contains("", ""));
    assert!(!contains("abc", "abcd"));
    assert!(!contains("abc", "B"));
    assert!(ends_with("a.cache", ".cache"));
    assert!(!ends_with("cache", ".cache"));
    assert!(starts_with("abc", "ab"));
    assert!(!starts_with("abc", "bc"));
    assert!(same_text("héllo", "héllo"));
    assert!(!same_text("hello", "hellO"));
}

#[test]
fn joining_and_replacing() {
    assert_eq!(join2("a", "b"), "ab");
    assert_eq!(join3("a", "-", "b"), "a-b");
    assert_eq!(remove_all("forgekit-forgekit-x", "forgekit-"), "x");
    assert_eq!(remove_all("abc", ""), "abc");
    assert_eq!(replace_all("aaa", "aa", "b"), "ba");
    assert_eq!(replace_all("a.b.c", ".", "\\."), "a\\.b\\.c");
    for (s, p, t) in [("aaaa", "aa", "x"), ("hello", "l", ""), ("abc", "abcd", "z"), ("", "a", "b")] {
        assert_eq!(replace_all(s, p, t), s.replace(p, t));
    }
}

#[test]
fn characters_round_trip() {
    let v = to_chars("grüß dich");
    assert_eq!(v.len(), 9);
    assert_eq!(from_chars(&v), "grüß dich");
}

#[test]
fn white_space_is_the_unicode_property() {
    for code in 0u32..0x3100 {
        if let Some(c) = char::from_u32(code) {
            assert_eq!(char_is_space(c), c.is_whitespace(), "U+{:04X}", code);
        }
    }
    let trimmed: String = chars_trim(&to_chars("\t  a b \u{3000}\r\n")).iter().collect();
    assert_eq!(trimmed, "a b");
    assert!(chars_trim(&to_chars(" \n ")).is_empty());
    assert_eq!(find_char(&to_chars("a=b=c"), '='), 1);
    assert_eq!(find_char(&to_chars("abc"), '='), 3);
}
