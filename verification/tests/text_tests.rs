use analytics::text::{
    ascii_lowercase, chars_of, contains, decimal_chars, ends_with, i64_string, owned, parse_i64,
    starts_with, str_is, trim,
};

fn cs(s: &str) -> Vec<char> {
    s.chars().collect()
}

#[test]
fn lowercases_ascii_only() {
    assert_eq!(ascii_lowercase(&cs("HeLLo ÄÖ 123")), cs("hello ÄÖ 123"));
}

#[test]
fn substring_search() {
    assert!(contains(&cs("abcdef"), &cs("cde")));
    assert!(!contains(&cs("abcdef"), &cs("ced")));
    assert!(contains(&cs("abc"), &cs("")));
    assert!(starts_with(&cs("/docs"), &cs("/")));
    assert!(!starts_with(&cs("docs"), &cs("/")));
    assert!(ends_with(&cs("file.mmdb.gz"), &cs(".gz")));
}

#[test]
fn trims_unicode_whitespace() {
    assert_eq!(trim(&cs("  \t hi there \u{3000}\n")), cs("hi there"));
    assert_eq!(trim(&cs("   ")), cs(""));
    assert_eq!(trim(&cs("x")), cs("x"));
}

#[test]
fn trim_is_idempotent_on_example() {
    let once = trim(&cs("\u{a0} a b \u{2003}"));
    assert_eq!(trim(&once), once);
}

#[test]
fn formats_integers() {
    assert_eq!(decimal_chars(0), cs("0"));
    assert_eq!(decimal_chars(1234567), cs("1234567"));
    assert_eq!(i64_string(-42), "-42");
    assert_eq!(i64_string(i64::MIN), i64::MIN.to_string());
    assert_eq!(i64_string(i64::MAX), i64::MAX.to_string());
}

#[test]
fn parses_integers_like_from_str() {
    assert_eq!(parse_i64(&cs("17")), Some(17));
    assert_eq!(parse_i64(&cs("+5")), Some(5));
    assert_eq!(parse_i64(&cs("-9223372036854775808")), Some(i64::MIN));
    assert_eq!(parse_i64(&cs("9223372036854775808")), None);
    assert_eq!(parse_i64(&cs("")), None);
    assert_eq!(parse_i64(&cs("-")), None);
    assert_eq!(parse_i64(&cs("1a")), None);
    assert_eq!(parse_i64(&cs(" 1")), None);
}

#[test]
fn integer_text_reads_back() {
    for v in [0i64, 1, -1, 99, -100, 2592000, i64::MAX, i64::MIN] {
        assert_eq!(parse_i64(&cs(&i64_string(v))), Some(v));
    }
}

#[test]
fn string_helpers() {
    assert_eq!(chars_of("añb"), vec!['a', 'ñ', 'b']);
    assert_eq!(owned("x y"), "x y");
    assert!(str_is("custom", "custom"));
    assert!(!str_is("custom", "Custom"));
    assert_eq!(analytics::text::concat(&cs("ab"), &cs("cd")), cs("abcd"));
}
