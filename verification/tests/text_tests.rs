use gruct_server::number::{parse_usize_chars, push_decimal, push_signed_decimal};
use gruct_server::text::{
    chars_of, find, same_text, split_once_at, string_of, strip_prefix_of, trimmed,
    trimmed_end, trimmed_start_char,
};

fn chars(s: &str) -> Vec<char> {
    s.chars().collect()
}

#[test]
fn chars_and_strings_round_trip() {
    let cs = chars_of("héllo wörld");
    assert_eq!(cs.len(), 11);
    assert_eq!(string_of(&cs), "héllo wörld");
}

#[test]
fn trimming_matches_std() {
    for s in ["  a b \r\n", "\u{3000}x\u{a0}", "", " \t ", "no-space", "\u{200b}z"] {
        let cs = chars(s);
        assert_eq!(string_of(trimmed(&cs)), s.trim());
        assert_eq!(string_of(trimmed_end(&cs)), s.trim_end());
    }
}

#[test]
fn leading_slashes_are_dropped() {
    let cs = chars("///a/b/");
    assert_eq!(string_of(trimmed_start_char(&cs, '/')), "a/b/");
}

#[test]
fn find_gives_first_occurrence() {
    let cs = chars("a: b: c");
    assert_eq!(find(&cs, &chars(": ")), Some(1));
    assert_eq!(find(&cs, &chars("x")), None);
    let (k, v) = split_once_at(&cs, &chars(": ")).unwrap();
    assert_eq!(string_of(k), "a");
    assert_eq!(string_of(v), "b: c");
}

#[test]
fn strip_prefix_only_at_start() {
    let cs = chars("content-length: 5");
    let rest = strip_prefix_of(&cs, &chars("content-length:")).unwrap();
    assert_eq!(string_of(rest), " 5");
    assert!(strip_prefix_of(&cs, &chars("length")).is_none());
}

#[test]
fn same_text_compares_characters() {
    assert!(same_text("pwd", "pwd"));
    assert!(!same_text("pwd", "pwd "));
    assert!(!same_text("", "a"));
}

#[test]
fn usize_parsing_matches_std() {
    for s in ["42", "+7", "", "+", "-1", "12a", "007", "18446744073709551615", "18446744073709551616", "٣"] {
        assert_eq!(parse_usize_chars(&chars(s)), s.parse::<usize>().ok(), "input {:?}", s);
    }
}

#[test]
fn decimal_printing_matches_display() {
    for n in [0u64, 7, 10, 404, 18446744073709551615] {
        let mut out = String::from("n=");
        push_decimal(&mut out, n);
        assert_eq!(out, format!("n={}", n));
    }
    for n in [0i64, -1, 201, i64::MIN, i64::MAX] {
        let mut out = String::new();
        push_signed_decimal(&mut out, n);
        assert_eq!(out, n.to_string());
    }
}
