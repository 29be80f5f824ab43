use fpm::text::{
    contains, decimal, ends_with, from_chars, join2, join3, parse_usize, replace, replace_once, rsplit_once,
    starts_with, str_equal, str_less, to_chars, trim,
};

#[test]
fn decimal_writes_zero() {
    assert_eq!(decimal(0), "0");
}

#[test]
fn decimal_writes_every_digit() {
    assert_eq!(decimal(1234567890), "1234567890");
    assert_eq!(decimal(7), "7");
    assert_eq!(decimal(10), "10");
}

#[test]
fn decimal_writes_the_highest_number() {
    assert_eq!(decimal(u128::MAX), "340282366920938463463374607431768211455");
    assert_eq!(decimal(u128::MAX), u128::MAX.to_string());
}

#[test]
fn parse_reads_what_decimal_writes() {
    assert_eq!(parse_usize("0"), Some(0));
    assert_eq!(parse_usize("42"), Some(42));
    assert_eq!(parse_usize("007"), Some(7));
    assert_eq!(parse_usize(&decimal(usize::MAX as u128)), Some(usize::MAX));
}

#[test]
fn parse_agrees_with_the_standard_library() {
    for text in ["", "+", "+5", "-5", "5+", "12a", " 1", "1 ", "18446744073709551616", "99999999999999999999999"] {
        assert_eq!(parse_usize(text), text.parse::<usize>().ok(), "on {:?}", text);
    }
}

#[test]
fn names_are_ordered_by_their_bytes() {
    assert!(str_less("a", "b"));
    assert!(!str_less("b", "a"));
    assert!(!str_less("a", "a"));
    assert!(str_less("a", "ab"));
    assert!(str_less("", "a"));
    assert!(!str_less("", ""));
    assert!(str_less("FPM.ftd", "blog.ftd"));
    assert!(str_less("z", "é"));
    for (a, b) in [("README.md", "index.md"), ("a/b", "a.b"), ("é", "z"), ("abc", "abd")] {
        assert_eq!(str_less(a, b), a < b);
        assert_eq!(str_less(b, a), b < a);
    }
}

#[test]
fn equal_strings_are_told_from_others() {
    assert!(str_equal("index.md", "index.md"));
    assert!(!str_equal("index.md", "index.mdx"));
    assert!(!str_equal("a", "b"));
    assert!(str_equal("", ""));
}

#[test]
fn chars_round_trip() {
    let v = to_chars("héllo");
    assert_eq!(v, vec!['h', 'é', 'l', 'l', 'o']);
    assert_eq!(from_chars(&v, 1, 4), "éll");
    assert_eq!(from_chars(&v, 0, 0), "");
}

#[test]
fn joins_concatenate() {
    assert_eq!(join2("a", "b"), "ab");
    assert_eq!(join3("a", "", "c"), "ac");
}

#[test]
fn prefixes_and_suffixes() {
    assert!(starts_with("-/fpm", "-/"));
    assert!(!starts_with("a-/", "-/"));
    assert!(starts_with("abc", ""));
    assert!(starts_with("", ""));
    assert!(!starts_with("a", "ab"));
    assert!(ends_with("name/", "/"));
    assert!(!ends_with("name", "/"));
    assert!(ends_with("", ""));
    assert!(!ends_with("b", "ab"));
}

#[test]
fn search_agrees_with_the_standard_library() {
    for (s, pat) in [("a/FPM/b", "FPM/"), ("FPM", "FPM/"), ("", ""), ("abc", ""), ("", "a"), ("aab", "ab"), ("héllo", "llo")] {
        assert_eq!(contains(s, pat), s.contains(pat), "{:?} in {:?}", pat, s);
    }
}

#[test]
fn replacing_agrees_with_the_standard_library() {
    for (s, pat, to) in [("lib/lib/x", "lib", "name"), ("x", "lib", "name"), ("abc", "", "X"), ("aaa", "aa", "b"), ("é-é", "é", "ee")] {
        assert_eq!(replace_once(s, pat, to), s.replacen(pat, to, 1));
        if !pat.is_empty() {
            assert_eq!(replace(s, pat, to), s.replace(pat, to));
        }
    }
    assert_eq!(replace("index.ftd.ftd", ".ftd", "/"), "index//");
}

#[test]
fn trimming_agrees_with_the_standard_library() {
    for s in ["", " ", "  a b  ", "\n\t x\u{a0}", "\u{2003}é\u{3000}", "abc", " \n "] {
        assert_eq!(trim(s), s.trim(), "{:?}", s);
    }
}

#[test]
fn splitting_at_the_last_occurrence() {
    assert_eq!(rsplit_once("a.b.c", '.'), Some(("a.b".to_string(), "c".to_string())));
    assert_eq!(rsplit_once("abc", '.'), None);
    assert_eq!(rsplit_once(".", '.'), Some((String::new(), String::new())));
    for s in ["", "x.", ".x", "a/b.c/d", "é.ü"] {
        let expected = s.rsplit_once('.').map(|(a, b)| (a.to_string(), b.to_string()));
        assert_eq!(rsplit_once(s, '.'), expected);
    }
}
