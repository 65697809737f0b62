use liase::text::{
    chars_of, contains, decimal_text, is_empty, parse_u64, shorten, shortenable, str_eq, str_less,
};

#[test]
fn text_order_is_that_of_strings() {
    let words = ["", "a", "ab", "b", "2024-01-02", "2024-01-10", "\u{e9}", "\u{ffff}", "\u{1f600}"];
    for a in words {
        for b in words {
            assert_eq!(str_less(a, b), a < b);
            assert_eq!(str_eq(a, b), a == b);
        }
    }
}

#[test]
fn empty_text() {
    assert!(is_empty(""));
    assert!(!is_empty(" "));
    assert_eq!(chars_of("a\u{e9}"), vec!['a', '\u{e9}']);
}

#[test]
fn decimals_round_trip() {
    for n in [0, 1, 9, 10, 60, 4_294_967_296, u64::MAX] {
        assert_eq!(decimal_text(n), n.to_string());
        assert_eq!(parse_u64(&decimal_text(n)), Some(n));
    }
}

#[test]
fn numbers_are_read_as_the_standard_library_does() {
    for s in [
        "", "+", "-", "-0", "+7", "007", " 7", "7 ", "1_0", "18446744073709551615",
        "18446744073709551616", "99999999999999999999999", "+18446744073709551615", "++1", "\u{661}",
    ] {
        assert_eq!(parse_u64(s), s.parse::<u64>().ok(), "{s}");
    }
}

#[test]
fn occurrence() {
    for (hay, needle) in [
        ("hello", "ell"), ("hello", ""), ("", ""), ("", "a"), ("aab", "ab"), ("abc", "abcd"),
        ("abc", "c"), ("ababac", "abac"), ("abc", "d"),
    ] {
        assert_eq!(contains(hay, needle), hay.contains(needle));
    }
}

#[test]
fn bodies_are_cut_after_a_number_of_bytes() {
    assert_eq!(shorten("abc", 3), "abc");
    assert_eq!(shorten("abcd", 3), "abc...");
    assert_eq!(shorten("", 0), "");
    assert_eq!(shorten("a\u{e9}b", 3), "a\u{e9}...");
}

#[test]
fn bodies_are_not_cut_within_a_character() {
    assert!(shortenable("a\u{e9}b", 3));
    assert!(!shortenable("a\u{e9}b", 2));
    assert!(shortenable("a\u{e9}", 3));
    assert!(shortenable("", 0));
}
