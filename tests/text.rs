use notes::text::{chars_of, decimal_chars, find_chars, parse_u64_chars, split_chars, trim_chars};

fn s(v: &[char]) -> String {
    v.iter().collect()
}

#[test]
fn trims_unicode_whitespace() {
    assert_eq!(s(&trim_chars(&chars_of("\u{3000}\u{2009} a b \u{85}\r\n"))), "a b");
    assert_eq!(s(&trim_chars(&chars_of("x"))), "x");
    assert!(trim_chars(&chars_of(" \t ")).is_empty());
}

#[test]
fn splits_like_str_split() {
    let pieces: Vec<String> = split_chars(&chars_of("a,,b,"), ',').iter().map(|p| s(p)).collect();
    assert_eq!(pieces, vec!["a", "", "b", ""]);
    assert_eq!(split_chars(&chars_of(""), ',').len(), 1);
}

#[test]
fn parses_like_u64_from_str() {
    for text in ["0", "42", "+7", "007", "18446744073709551615", "", "+", "-1", "1_000", " 1", "18446744073709551616"] {
        assert_eq!(parse_u64_chars(&chars_of(text)), text.parse::<u64>().ok(), "input {text:?}");
    }
}

#[test]
fn renders_decimals() {
    assert_eq!(s(&decimal_chars(0)), "0");
    assert_eq!(s(&decimal_chars(1234567890)), "1234567890");
    assert_eq!(s(&decimal_chars(u64::MAX)), "18446744073709551615");
}

#[test]
fn finds_first_occurrence() {
    assert_eq!(find_chars(&chars_of("abcabc"), &chars_of("bc")), Some(1));
    assert_eq!(find_chars(&chars_of("abc"), &chars_of("x")), None);
    assert_eq!(find_chars(&chars_of("ab"), &chars_of("abc")), None);
}
