use meme_bot::text::{
    find_char, is_single_line, push_decimal, split_str, starts_with, str_eq, to_lowercase,
    trim_str,
};

#[test]
fn to_lowercase_folds_ascii_letters_only() {
    assert_eq!(to_lowercase("MiXeD Case 123!"), "mixed case 123!");
    assert_eq!(to_lowercase("drake"), "drake");
    assert_eq!(to_lowercase(""), "");
}

#[test]
fn trim_str_removes_surrounding_whitespace() {
    assert_eq!(trim_str("  DRAKE \t"), "DRAKE");
    assert_eq!(trim_str("\r\na b\n"), "a b");
    assert_eq!(trim_str("   "), "");
    assert_eq!(trim_str("x"), "x");
}

#[test]
fn split_str_keeps_empty_pieces() {
    assert_eq!(split_str("a\nb", '\n'), vec!["a".to_string(), "b".to_string()]);
    assert_eq!(
        split_str("a\n\nb\n", '\n'),
        vec!["a".to_string(), "".to_string(), "b".to_string(), "".to_string()]
    );
    assert_eq!(split_str("", '\n'), vec!["".to_string()]);
}

#[test]
fn str_eq_and_starts_with_compare_characters() {
    assert!(str_eq("!ping", "!ping"));
    assert!(!str_eq("!ping", "!pong"));
    assert!(!str_eq("!ping", "!ping "));
    assert!(starts_with("!source please", "!source"));
    assert!(!starts_with("!sourc", "!source"));
}

#[test]
fn find_char_returns_the_first_position() {
    assert_eq!(find_char("!meme drake", ' '), Some(5));
    assert_eq!(find_char("a b c", ' '), Some(1));
    assert_eq!(find_char("abc", ' '), None);
}

#[test]
fn is_single_line_ignores_a_trailing_break() {
    assert!(is_single_line("!meme drake"));
    assert!(is_single_line("!meme drake\n"));
    assert!(!is_single_line("!meme drake\nTop"));
    assert!(is_single_line(""));
}

#[test]
fn push_decimal_renders_base_ten() {
    let mut s = String::new();
    push_decimal(&mut s, 0);
    assert_eq!(s, "0");
    let mut t = String::from("n = ");
    push_decimal(&mut t, 10907);
    assert_eq!(t, "n = 10907");
}
