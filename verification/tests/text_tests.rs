use picacg_app::text::{
    concat_str, format_api_date, i64_to_string, input_display, is_blank, non_empty, parse_i32_chars,
    parse_u32_chars, parse_u64_chars, sanitize_filename, split_chars, take_chars, trimmed,
    truncate_path, truncate_text, u64_to_string,
};

fn chars(s: &str) -> Vec<char> {
    s.chars().collect()
}

#[test]
fn truncate_text_cuts_by_characters() {
    assert_eq!(truncate_text("你好世界和平", 4), "你好世界...");
    assert_eq!(truncate_text("abc", 3), "abc");
    assert_eq!(truncate_text("abcd", 3), "abc...");
    assert_eq!(truncate_text("", 0), "");
}

#[test]
fn truncate_path_keeps_the_end() {
    assert_eq!(truncate_path("/a/b/c", 10), "/a/b/c");
    assert_eq!(truncate_path("/very/long/漫画/path", 8), ".../path");
    assert_eq!(truncate_path("abcdef", 2), "...");
}

#[test]
fn api_date_is_the_part_before_t() {
    assert_eq!(format_api_date("2023-01-01T12:00:00.000Z"), "2023-01-01");
    assert_eq!(format_api_date("2023-01-01"), "2023-01-01");
    assert_eq!(format_api_date("T"), "");
}

#[test]
fn trimming_uses_unicode_whitespace() {
    assert_eq!(trimmed("  hello \u{3000}"), "hello");
    assert!(is_blank(" \t\n\u{3000}"));
    assert!(!is_blank(" x "));
    assert_eq!(non_empty("   ", "fallback"), "fallback");
    assert_eq!(non_empty(" a ", "fallback"), " a ");
}

#[test]
fn numbers_parse_like_std() {
    let c = chars("+42");
    assert_eq!(parse_u64_chars(&c, 0, c.len()), Some(42));
    let c = chars("-0");
    assert_eq!(parse_u64_chars(&c, 0, c.len()), None);
    assert_eq!(parse_i32_chars(&c, 0, c.len()), Some(0));
    let c = chars("-2147483648");
    assert_eq!(parse_i32_chars(&c, 0, c.len()), Some(i32::MIN));
    let c = chars("2147483648");
    assert_eq!(parse_i32_chars(&c, 0, c.len()), None);
    let c = chars("4294967295");
    assert_eq!(parse_u32_chars(&c, 0, c.len()), Some(u32::MAX));
    let c = chars("4294967296");
    assert_eq!(parse_u32_chars(&c, 0, c.len()), None);
    let c = chars("18446744073709551616");
    assert_eq!(parse_u64_chars(&c, 0, c.len()), None);
    let c = chars("");
    assert_eq!(parse_u64_chars(&c, 0, 0), None);
    let c = chars("1a");
    assert_eq!(parse_u64_chars(&c, 0, c.len()), None);
}

#[test]
fn numbers_print_like_std() {
    assert_eq!(u64_to_string(0), "0");
    assert_eq!(u64_to_string(1234567890), "1234567890");
    assert_eq!(u64_to_string(u64::MAX), u64::MAX.to_string());
    assert_eq!(i64_to_string(-42), "-42");
    assert_eq!(i64_to_string(i64::MIN), i64::MIN.to_string());
}

#[test]
fn split_matches_std_split() {
    for s in ["2000-01-01", "", "-", "a--b-", "--"] {
        let got: Vec<String> = split_chars(s, '-').into_iter().map(|v| v.into_iter().collect()).collect();
        let want: Vec<String> = s.split('-').map(|p| p.to_string()).collect();
        assert_eq!(got, want);
    }
}

#[test]
fn filename_sanitizing_and_concat() {
    assert_eq!(sanitize_filename("a/b:c*?"), "a_b_c__");
    assert_eq!(concat_str("ab", "漫画"), "ab漫画");
    assert_eq!(take_chars("2023-01-01T00:00", 10), "2023-01-01");
    assert_eq!(take_chars("abc", 10), "abc");
}

#[test]
fn input_display_masks_passwords() {
    assert_eq!(input_display("", "hint", true), ("hint".to_string(), true));
    assert_eq!(input_display("密码1", "hint", true), ("***".to_string(), false));
    assert_eq!(input_display("abc", "hint", false), ("abc".to_string(), false));
}
