use orgbrain::text::{
    clone_strings, joined, contains, contains_chars, decimal_i64, decimal_u64, find_first,
    find_last, from_chars, strip_prefix, to_chars,
};

#[test]
fn chars_of_text_in_order() {
    assert_eq!(to_chars("ab{c}"), vec!['a', 'b', '{', 'c', '}']);
    assert_eq!(to_chars(""), Vec::<char>::new());
    assert_eq!(to_chars("é{"), vec!['é', '{']);
}

#[test]
fn from_chars_takes_the_range() {
    let chars = to_chars("hello world");
    assert_eq!(from_chars(&chars, 0, 5), "hello");
    assert_eq!(from_chars(&chars, 6, 11), "world");
    assert_eq!(from_chars(&chars, 3, 3), "");
}

#[test]
fn find_first_returns_length_when_absent() {
    let chars = to_chars("a{b{c");
    assert_eq!(find_first(&chars, '{'), 1);
    assert_eq!(find_first(&chars, 'z'), 5);
    assert_eq!(find_first(&Vec::new(), '{'), 0);
}

#[test]
fn find_last_returns_none_when_absent() {
    let chars = to_chars("a}b}c");
    assert_eq!(find_last(&chars, '}'), Some(3));
    assert_eq!(find_last(&chars, 'z'), None);
    assert_eq!(find_last(&Vec::new(), '}'), None);
}

#[test]
fn contains_finds_substrings() {
    assert!(contains("infra outage", "infra"));
    assert!(contains("infra outage", "outage"));
    assert!(contains("infra outage", "a o"));
    assert!(contains("abc", ""));
    assert!(contains("", ""));
    assert!(!contains("company picnic", "eng"));
    assert!(!contains("ab", "abc"));
    assert!(!contains("aab", "abb"));
}

#[test]
fn contains_chars_matches_at_the_very_end() {
    assert!(contains_chars(&to_chars("xxhr"), &to_chars("hr")));
    assert!(!contains_chars(&to_chars("xxh"), &to_chars("hr")));
}

#[test]
fn strip_prefix_returns_the_rest() {
    assert_eq!(strip_prefix("stt:/tmp/a.wav", "stt:"), Some("/tmp/a.wav".to_string()));
    assert_eq!(strip_prefix("stt:", "stt:"), Some(String::new()));
    assert_eq!(strip_prefix("st", "stt:"), None);
    assert_eq!(strip_prefix("text", "stt:"), None);
}

#[test]
fn decimal_of_unsigned_numbers() {
    assert_eq!(decimal_u64(0), "0");
    assert_eq!(decimal_u64(7), "7");
    assert_eq!(decimal_u64(10), "10");
    assert_eq!(decimal_u64(12345), "12345");
    assert_eq!(decimal_u64(u64::MAX), "18446744073709551615");
}

#[test]
fn decimal_of_signed_numbers() {
    assert_eq!(decimal_i64(0), "0");
    assert_eq!(decimal_i64(42), "42");
    assert_eq!(decimal_i64(-1), "-1");
    assert_eq!(decimal_i64(-120), "-120");
    assert_eq!(decimal_i64(i64::MAX), "9223372036854775807");
    assert_eq!(decimal_i64(i64::MIN), "-9223372036854775808");
}

#[test]
fn joined_puts_two_texts_together() {
    assert_eq!(joined("employee_", "john"), "employee_john");
    assert_eq!(joined("", ""), "");
}

#[test]
fn clone_strings_copies_every_string() {
    let v = vec!["a".to_string(), "".to_string(), "bc".to_string()];
    assert_eq!(clone_strings(&v), v);
}

#[test]
fn trim_agrees_with_the_standard_library() {
    for s in [
        "", " ", "a", "  a  ", "\t a b \n", "\u{a0}x\u{2003}", "\u{85}\u{1680}y z\u{3000}",
        "no space", " \r\n", "é ", " \u{200b}zero width stays\u{200b} ",
    ] {
        assert_eq!(orgbrain::text::trim(s), s.trim());
    }
    assert_eq!(orgbrain::text::trim("  a b  "), "a b");
}
