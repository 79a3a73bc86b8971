use pea::text::{
    contains_text, eq_text, eq_text_ignore_case, parse_hex_u64, parse_i32, parse_u64, parse_unsigned, push_decimal,
    push_hex, push_signed, split_n, split_tokens, starts_with, trim,
};

#[test]
fn tokens_split_on_any_whitespace() {
    assert_eq!(split_tokens("  go  wtime\t1000\n"), vec!["go", "wtime", "1000"]);
    assert!(split_tokens("   ").is_empty());
}

#[test]
fn split_n_keeps_rest_in_last_piece() {
    assert_eq!(split_n("a|b|c|d", '|', 3), vec!["a", "b", "c|d"]);
    assert_eq!(split_n("a||b", '|', 10), vec!["a", "", "b"]);
    assert_eq!(split_n("", '|', 4), vec![""]);
}

#[test]
fn integers_parse_like_std() {
    assert_eq!(parse_i32("-2147483648"), Some(i32::MIN));
    assert_eq!(parse_i32("+17"), Some(17));
    assert_eq!(parse_i32("2147483648"), None);
    assert_eq!(parse_i32(""), None);
    assert_eq!(parse_i32("-"), None);
    assert_eq!(parse_i32(" 5"), None);
    assert_eq!(parse_u64("18446744073709551615"), Some(u64::MAX));
    assert_eq!(parse_u64("18446744073709551616"), None);
    assert_eq!(parse_u64("-1"), None);
    assert_eq!(parse_unsigned("255", 255), Some(255));
    assert_eq!(parse_unsigned("256", 255), None);
}

#[test]
fn hex_parse_like_from_str_radix() {
    assert_eq!(parse_hex_u64("ff"), Some(255));
    assert_eq!(parse_hex_u64("+00FF"), Some(255));
    assert_eq!(parse_hex_u64("ffffffffffffffff"), Some(u64::MAX));
    assert_eq!(parse_hex_u64("10000000000000000"), None);
    assert_eq!(parse_hex_u64("fg"), None);
    assert_eq!(parse_hex_u64("+"), None);
    assert_eq!(parse_hex_u64(""), None);
}

#[test]
fn trim_and_prefixes() {
    assert_eq!(trim("  abc \r\n"), "abc");
    assert_eq!(trim(" \t "), "");
    assert!(starts_with("Wins: 3", "Wins:"));
    assert!(!starts_with("Win", "Wins:"));
    assert!(contains_text("Games: 10, Wins: 3", "Games"));
    assert!(!contains_text("Elo: 3", "Games"));
    assert!(contains_text("abc", ""));
}

#[test]
fn text_equality() {
    assert!(eq_text("uci", "uci"));
    assert!(!eq_text("uci", "ucinewgame"));
    assert!(eq_text_ignore_case("Hash", "hash"));
    assert!(!eq_text_ignore_case("Hash", "hasp"));
}

#[test]
fn numbers_written_as_text() {
    let mut s = String::new();
    push_decimal(&mut s, 0);
    s.push(' ');
    push_decimal(&mut s, 1234567890);
    s.push(' ');
    push_signed(&mut s, i32::MIN);
    s.push(' ');
    push_signed(&mut s, 42);
    s.push(' ');
    push_hex(&mut s, 0xdead, 6);
    assert_eq!(s, "0 1234567890 -2147483648 42 00dead");
}
