use scad_editor_core::text::{
    contains_str, count_lines, count_matches, ends_with, find_from, matches_at, parse_int,
    push_decimal, push_signed_decimal, push_str, starts_with, str_eq, str_less, string_of,
    to_ascii_lower, to_chars, trim_range,
};

fn chars(s: &str) -> Vec<char> {
    s.chars().collect()
}

#[test]
fn to_chars_and_back() {
    let v = to_chars("héllo");
    assert_eq!(v, vec!['h', 'é', 'l', 'l', 'o']);
    assert_eq!(string_of(&v, 1, 4), "éll");
    assert_eq!(string_of(&v, 0, 0), "");
}

#[test]
fn str_eq_compares_characters() {
    assert!(str_eq("abc", "abc"));
    assert!(!str_eq("abc", "abd"));
    assert!(!str_eq("abc", "ab"));
    assert!(str_eq("", ""));
}

#[test]
fn matches_at_offsets() {
    let t = chars("abcabc");
    assert!(matches_at(&t, &chars("abc"), 0));
    assert!(matches_at(&t, &chars("abc"), 3));
    assert!(!matches_at(&t, &chars("abc"), 1));
    assert!(!matches_at(&t, &chars("abc"), 4));
    assert!(matches_at(&t, &chars(""), 6));
    assert!(!matches_at(&t, &chars(""), 7));
}

#[test]
fn find_from_is_leftmost() {
    let t = chars("xxabxxab");
    assert_eq!(find_from(&t, &chars("ab"), 0), Some(2));
    assert_eq!(find_from(&t, &chars("ab"), 3), Some(6));
    assert_eq!(find_from(&t, &chars("ab"), 7), None);
    assert_eq!(find_from(&t, &chars("zz"), 0), None);
    assert_eq!(find_from(&t, &chars(""), 8), Some(8));
    assert_eq!(find_from(&t, &chars(""), 9), None);
}

#[test]
fn count_matches_counts_every_offset() {
    assert_eq!(count_matches(&chars("aaaa"), &chars("aa")), 3);
    assert_eq!(count_matches(&chars("aaa"), &chars("aa")), 2);
    assert_eq!(count_matches(&chars("ababab"), &chars("aba")), 2);
    assert_eq!(count_matches(&chars("abcabc"), &chars("abc")), 2);
    assert_eq!(count_matches(&chars("abc"), &chars("abc")), 1);
    assert_eq!(count_matches(&chars("abc"), &chars("d")), 0);
    assert_eq!(count_matches(&chars("abc"), &chars("abcd")), 0);
    assert_eq!(count_matches(&chars("abc"), &chars("")), 4);
    assert_eq!(count_matches(&chars(""), &chars("")), 1);
    assert_eq!(count_matches(&chars(""), &chars("a")), 0);
}

#[test]
fn count_matches_agrees_with_find_at_every_offset() {
    let cases = [("cube([1,1,1]); cube([2,2,2]);", "cube"), ("ababab", "aba"), ("a\nb\n", "\n"), ("ééé", "éé")];
    for (text, pat) in cases {
        let expected = text.char_indices().filter(|(i, _)| text[*i..].starts_with(pat)).count();
        assert_eq!(count_matches(&chars(text), &chars(pat)), expected, "{:?}", text);
    }
}

#[test]
fn count_lines_agrees_with_std() {
    for text in ["", "a", "a\n", "a\nb", "\n", "\n\n", "a\r\nb\r\n", "a\n\nb"] {
        assert_eq!(count_lines(&chars(text)), text.lines().count(), "{:?}", text);
    }
    assert_eq!(count_lines(&chars("a\nb\nc")), 3);
}

#[test]
fn trim_range_strips_white_space() {
    let v = chars("  \t a b \u{a0}\n");
    let (a, b) = trim_range(&v, 0, v.len());
    assert_eq!(string_of(&v, a, b), "a b");
    let blank = chars(" \t ");
    let (a, b) = trim_range(&blank, 0, blank.len());
    assert_eq!(a, b);
    let inner = chars("x  y  z");
    let (a, b) = trim_range(&inner, 1, 6);
    assert_eq!(string_of(&inner, a, b), "y");
}

#[test]
fn lower_case_of_ascii_capitals() {
    assert_eq!(to_ascii_lower('A'), 'a');
    assert_eq!(to_ascii_lower('Z'), 'z');
    assert_eq!(to_ascii_lower('a'), 'a');
    assert_eq!(to_ascii_lower('['), '[');
    assert_eq!(to_ascii_lower('É'), 'É');
}

#[test]
fn parse_int_agrees_with_std() {
    let cases = [
        "0", "12", "007", "+5", "-5", "-0", "2147483647", "2147483648", "-2147483648",
        "-2147483649", "", "+", "-", "1a", "a1", " 1", "١٢", "99999999999999999999999",
    ];
    for s in cases {
        assert_eq!(parse_int(&chars(s)), s.parse::<i32>().ok(), "{:?}", s);
    }
    assert_eq!(parse_int(&chars("2147483647")), Some(2147483647));
    assert_eq!(parse_int(&chars("-2147483648")), Some(-2147483648));
}

#[test]
fn dictionary_order_agrees_with_std() {
    let words = ["", "a", "ab", "abc", "abd", "b", "B", "é", "z", "zz", "日本"];
    for a in words {
        for b in words {
            assert_eq!(str_less(a, b), a < b, "{:?} {:?}", a, b);
        }
    }
}

#[test]
fn decimal_and_suffixes() {
    let mut out = Vec::new();
    push_decimal(&mut out, 0);
    push_str(&mut out, " ");
    push_decimal(&mut out, 18446744073709551615);
    push_str(&mut out, " ");
    push_signed_decimal(&mut out, -9223372036854775808);
    push_str(&mut out, " ");
    push_signed_decimal(&mut out, 120);
    let text: String = out.iter().collect();
    assert_eq!(text, "0 18446744073709551615 -9223372036854775808 120");
    assert!(contains_str(&chars("abc"), "bc"));
    assert!(contains_str(&chars("abc"), ""));
    assert!(!contains_str(&chars("abc"), "cb"));
    assert!(starts_with(&chars("abc"), "ab"));
    assert!(!starts_with(&chars("abc"), "bc"));
    assert!(ends_with(&chars("abc"), &chars("bc")));
    assert!(!ends_with(&chars("abc"), &chars("ab")));
    assert!(ends_with(&chars("abc"), &chars("")));
    assert!(!ends_with(&chars("bc"), &chars("abc")));
}

#[test]
fn trim_range_agrees_with_std() {
    let cases = [
        "", " ", "a", " a", "a ", "\t\r\n a b \u{b}\u{c}", "\u{85}x\u{a0}", "\u{1680}\u{2000}y\u{200a}",
        "\u{2028}\u{2029}z\u{202f}\u{205f}\u{3000}", "\u{200b}w\u{feff}", "  \u{3000} ",
    ];
    for text in cases {
        let v = chars(text);
        let (a, b) = trim_range(&v, 0, v.len());
        assert_eq!(string_of(&v, a, b), text.trim(), "{:?}", text);
    }
}
