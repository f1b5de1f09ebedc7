use rawtree_cli::text::{
    collapse_whitespace, decimal_string, eq_ignore_ascii_case, join_strings, parse_i64,
    parse_u64, parse_usize, replace_char, str_lt, trim, trim_end, trim_end_char,
};

#[test]
fn trimming_follows_str_semantics() {
    assert_eq!(trim("\t a b \n"), "a b");
    assert_eq!(trim_end("  a  "), "  a");
    assert_eq!(trim_end_char("https://x///", '/'), "https://x");
    assert_eq!(trim("\u{3000}x\u{a0}"), "x");
}

#[test]
fn numbers_parse_like_std() {
    assert_eq!(parse_i64("-42"), Some(-42));
    assert_eq!(parse_i64("+7"), Some(7));
    assert_eq!(parse_i64("9223372036854775808"), None);
    assert_eq!(parse_i64("-9223372036854775808"), Some(i64::MIN));
    assert_eq!(parse_i64(""), None);
    assert_eq!(parse_u64("18446744073709551615"), Some(u64::MAX));
    assert_eq!(parse_u64("18446744073709551616"), None);
    assert_eq!(parse_u64("-1"), None);
    assert_eq!(parse_usize("+"), None);
    assert_eq!(decimal_string(0), "0");
    assert_eq!(decimal_string(1234567890123), "1234567890123");
}

#[test]
fn string_helpers() {
    assert_eq!(join_strings(&vec!["a".to_string(), "b".to_string()], ", "), "a, b");
    assert_eq!(join_strings(&Vec::new(), ", "), "");
    assert_eq!(replace_char("a_b_c", '_', ' '), "a b c");
    assert!(eq_ignore_ascii_case("JsonL", "jsonl"));
    assert!(!eq_ignore_ascii_case("jsonl", "jsonll"));
    assert!(str_lt("2026-08-09", "2026-08-10"));
    assert!(!str_lt("b", "a"));
    let collapsed: String = collapse_whitespace("  a \n\t b  ").into_iter().collect();
    assert_eq!(collapsed, "a b");
}
