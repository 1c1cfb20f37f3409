use wrun::text::{
    ascii_lower, ascii_upper, eq_ignore_ascii_case, join_with, repeat_char, replace_first,
    split_char_str, u64_dec_pad_string, u64_dec_string,
};

#[test]
fn decimal_rendering() {
    assert_eq!(u64_dec_string(0), "0");
    assert_eq!(u64_dec_string(7), "7");
    assert_eq!(u64_dec_string(1234567890), "1234567890");
    assert_eq!(u64_dec_string(u64::MAX), "18446744073709551615");
    assert_eq!(u64_dec_pad_string(42, 6), "000042");
    assert_eq!(u64_dec_pad_string(1234567, 6), "1234567");
}

#[test]
fn ascii_case_mapping() {
    assert_eq!(ascii_lower("AbC-Ä9"), "abc-Ä9");
    assert_eq!(ascii_upper("aBc-ä9"), "ABC-ä9");
    assert!(eq_ignore_ascii_case("Hello", "hELLO"));
    assert!(!eq_ignore_ascii_case("Hello", "Hellos"));
}

#[test]
fn split_and_join() {
    assert_eq!(split_char_str("a,b,,c", ','), vec!["a", "b", "", "c"]);
    assert_eq!(split_char_str("", ','), vec![""]);
    assert_eq!(split_char_str("abc", ','), vec!["abc"]);
    let parts: Vec<String> = vec!["x".to_string(), "y".to_string(), "z".to_string()];
    assert_eq!(join_with(&parts, ", "), "x, y, z");
    assert_eq!(join_with(&Vec::new(), ", "), "");
}

#[test]
fn replace_first_occurrence_only() {
    assert_eq!(replace_first("a-b-c", "-", "+"), "a+b-c");
    assert_eq!(replace_first("aaa", "aa", "b"), "ba");
    assert_eq!(replace_first("abc", "zz", "y"), "abc");
}

#[test]
fn repeated_characters() {
    assert_eq!(repeat_char('x', 0), "");
    assert_eq!(repeat_char(' ', 3), "   ");
}
