use motuman::text::{
    chars_of, contains, matches_at, parse_integer, push_decimal, push_int, remove_all,
    remove_char, split,
};

fn chars(s: &str) -> Vec<char> {
    s.chars().collect()
}

#[test]
fn decimal_text_of_integers() {
    let mut out = String::from("x");
    push_decimal(&mut out, 0);
    push_decimal(&mut out, 907);
    push_decimal(&mut out, u64::MAX);
    assert_eq!(out, "x090718446744073709551615");
    let mut out = String::new();
    push_int(&mut out, -45);
    push_int(&mut out, 0);
    push_int(&mut out, i64::MIN);
    push_int(&mut out, i64::MAX);
    assert_eq!(out, "-450-92233720368547758089223372036854775807");
}

#[test]
fn chars_of_keeps_every_character() {
    assert_eq!(chars_of("a(1,é)"), chars("a(1,é)"));
    assert_eq!(chars_of(""), Vec::<char>::new());
}

#[test]
fn parse_integer_reads_signed_numbers() {
    assert_eq!(parse_integer(&chars("42"), true, -100, 100), Some(42));
    assert_eq!(parse_integer(&chars("-42"), true, -100, 100), Some(-42));
    assert_eq!(parse_integer(&chars("+42"), true, -100, 100), Some(42));
    assert_eq!(parse_integer(&chars("0042"), true, -100, 100), Some(42));
    assert_eq!(parse_integer(&chars("-0"), true, -100, 100), Some(0));
    assert_eq!(parse_integer(&chars("100"), true, -100, 100), Some(100));
    assert_eq!(parse_integer(&chars("-100"), true, -100, 100), Some(-100));
}

#[test]
fn parse_integer_refuses_what_is_no_number_in_range() {
    for text in ["", "+", "-", "--1", "+-1", "1a", "a1", " 1", "1 ", "101", "-101", "1.0", "٣"] {
        assert_eq!(parse_integer(&chars(text), true, -100, 100), None, "{:?}", text);
    }
    assert_eq!(parse_integer(&chars("-1"), false, 0, 100), None);
    assert_eq!(parse_integer(&chars("-0"), false, 0, 100), None);
    assert_eq!(parse_integer(&chars("+7"), false, 0, 100), Some(7));
    assert_eq!(
        parse_integer(&chars("99999999999999999999999999999999"), true, -100, 100),
        None
    );
    assert_eq!(
        parse_integer(&chars("4294967296"), false, 0, 0x1_0000_0000),
        Some(4294967296)
    );
    assert_eq!(parse_integer(&chars("4294967297"), false, 0, 0x1_0000_0000), None);
}

#[test]
fn split_keeps_empty_pieces() {
    assert_eq!(split(&chars(""), ','), vec![chars("")]);
    assert_eq!(split(&chars("abc"), ','), vec![chars("abc")]);
    assert_eq!(split(&chars("a,b"), ','), vec![chars("a"), chars("b")]);
    assert_eq!(
        split(&chars(",a,,b,"), ','),
        vec![chars(""), chars("a"), chars(""), chars("b"), chars("")]
    );
    let expected: Vec<Vec<char>> = "1.2..3".split('.').map(chars).collect();
    assert_eq!(split(&chars("1.2..3"), '.'), expected);
}

#[test]
fn contains_and_matches_at_find_patterns() {
    assert!(contains(&chars("unmute(3)"), &chars("mute")));
    assert!(contains(&chars("mute"), &chars("mute")));
    assert!(!contains(&chars("mut"), &chars("mute")));
    assert!(!contains(&chars("m-u-t-e"), &chars("mute")));
    assert!(contains(&chars("abc"), &chars("")));
    assert!(contains(&chars(""), &chars("")));
    assert!(matches_at(&chars("unmute"), &chars("mute"), 2));
    assert!(!matches_at(&chars("unmute"), &chars("mute"), 1));
    assert!(!matches_at(&chars("unmute"), &chars("mute"), 3));
    assert!(!matches_at(&chars("unmute"), &chars("mute"), 100));
    assert!(matches_at(&chars("abc"), &chars(""), 3));
}

#[test]
fn remove_all_takes_out_occurrences_from_the_left() {
    assert_eq!(remove_all(&chars("vol(3)"), &chars("vol(")), chars("3)"));
    assert_eq!(remove_all(&chars("vol(vol(3"), &chars("vol(")), chars("3"));
    assert_eq!(remove_all(&chars("aaa"), &chars("aa")), chars("a"));
    assert_eq!(remove_all(&chars("abab"), &chars("ab")), chars(""));
    assert_eq!(remove_all(&chars("vovol(l(3"), &chars("vol(")), chars("vol(3"));
    assert_eq!(remove_all(&chars("xyz"), &chars("vol(")), chars("xyz"));
    assert_eq!(remove_all(&chars(""), &chars("vol(")), chars(""));
    for text in ["send(1,2)", "ssend(end(", "send(send", "sen", "xsend(ysend(z"] {
        assert_eq!(
            remove_all(&chars(text), &chars("send(")),
            chars(&text.replace("send(", "")),
            "{}",
            text
        );
    }
}

#[test]
fn remove_char_takes_out_every_occurrence() {
    assert_eq!(remove_char(&chars("3)"), ')'), chars("3"));
    assert_eq!(remove_char(&chars(")))"), ')'), chars(""));
    assert_eq!(remove_char(&chars("a)b)c"), ')'), chars("abc"));
    assert_eq!(remove_char(&chars("abc"), ')'), chars("abc"));
}
