use depot_downloader::text::{
    decimal_string, is_whitespace, lines_of, parse_u32, parse_u64, trim_chars,
};

fn chars(s: &str) -> Vec<char> {
    s.chars().collect()
}

fn text(cs: &[char]) -> String {
    cs.iter().collect()
}

#[test]
fn decimal_text_of_numbers() {
    assert_eq!(decimal_string(0), "0");
    assert_eq!(decimal_string(1234567890), "1234567890");
    assert_eq!(decimal_string(u64::MAX), "18446744073709551615");
}

#[test]
fn parsing_numbers_as_str_parse_does() {
    assert_eq!(parse_u32("4294967295"), Some(u32::MAX));
    assert_eq!(parse_u32("4294967296"), None);
    assert_eq!(parse_u32("+7"), Some(7));
    assert_eq!(parse_u32("007"), Some(7));
    assert_eq!(parse_u32(""), None);
    assert_eq!(parse_u32("+"), None);
    assert_eq!(parse_u32("-1"), None);
    assert_eq!(parse_u32(" 1"), None);
    assert_eq!(parse_u64("18446744073709551615"), Some(u64::MAX));
    assert_eq!(parse_u64("18446744073709551616"), None);
    for n in [0u64, 9, 10, 99999, u64::MAX] {
        assert_eq!(parse_u64(&decimal_string(n)), Some(n));
    }
}

#[test]
fn trimming_takes_unicode_whitespace() {
    assert_eq!(text(&trim_chars(&chars(" \t a b \u{3000}\n"))), "a b");
    assert_eq!(text(&trim_chars(&chars("   "))), "");
    assert!(is_whitespace('\u{85}'));
    assert!(is_whitespace('\u{2029}'));
    assert!(!is_whitespace('\u{200b}'));
    assert!(!is_whitespace('x'));
}

#[test]
fn lines_split_as_str_lines_does() {
    let ls: Vec<String> = lines_of(&chars("a\r\nb\n\nc\r")).iter().map(|l| text(l)).collect();
    assert_eq!(ls, vec!["a", "b", "", "c\r"]);
    let ls: Vec<String> = lines_of(&chars("x\n")).iter().map(|l| text(l)).collect();
    assert_eq!(ls, vec!["x"]);
    assert!(lines_of(&[]).is_empty());
}
