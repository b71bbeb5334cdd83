use bmkg_edge::text::{
    alnum, chars_of, contains_text, decimal_text, digit, join_text, last_occurrence, last_piece,
    parse_unsigned, piece, replaced, same, segments_of, split_pair, split_text, trimmed, upper, white,
    words_of,
};

#[test]
fn character_classes_agree_with_the_standard_library() {
    for n in 0..=0x10FFFFu32 {
        if let Some(c) = char::from_u32(n) {
            assert_eq!(white(c), c.is_whitespace(), "{n:x}");
            assert_eq!(digit(c), c.is_ascii_digit());
            assert_eq!(alnum(c), c.is_ascii_alphanumeric());
            assert_eq!(upper(c), c.to_ascii_uppercase());
        }
    }
}

#[test]
fn trimming() {
    for s in ["", " ", " a ", "a", "\t\u{3000}x y\u{a0}\n", "é "] {
        assert_eq!(trimmed(s), s.trim());
        assert_eq!(trimmed(&trimmed(s)), s.trim());
    }
}

#[test]
fn splitting_and_joining() {
    for s in ["", "a", "a/b", "/a//b/", "//"] {
        let parts: Vec<&str> = s.split('/').collect();
        assert_eq!(split_text(s, '/'), parts);
        assert_eq!(join_text(&split_text(s, '/'), "/"), s);
        let full: Vec<&str> = s.split('/').filter(|p| !p.is_empty()).collect();
        assert_eq!(segments_of(s, '/'), full);
        assert_eq!(last_piece(s, '/'), s.rsplit('/').next().unwrap());
    }
    assert_eq!(join_text(&vec![], ","), "");
}

#[test]
fn words_and_pairs() {
    assert_eq!(words_of("  a\tb \n c "), ["a", "b", "c"]);
    assert!(words_of(" \u{2003} ").is_empty());
    assert_eq!(split_pair("a,b,c", ','), Some(("a".into(), "b,c".into())));
    assert_eq!(split_pair("abc", ','), None);
}

#[test]
fn searching_and_replacing() {
    assert!(contains_text("no-store, private", "no-store"));
    assert!(!contains_text("store", "no-store"));
    assert!(contains_text("x", ""));
    let v = chars_of("abcabc");
    assert_eq!(last_occurrence(&v, &chars_of("bc")), Some(4));
    assert_eq!(last_occurrence(&v, &chars_of("x")), None);
    assert_eq!(replaced("a{{V}}b{{V}}", "{{V}}", "1"), "a1b1");
    assert_eq!(replaced("aaa", "aa", "b"), "ba");
    assert_eq!(piece(&v, 1, 3), "bc");
    assert!(same("a", "a") && !same("a", "b"));
}

#[test]
fn whole_numbers() {
    for n in [0u64, 9, 10, 86_400, u64::MAX] {
        assert_eq!(decimal_text(n), n.to_string());
        assert_eq!(parse_unsigned(&n.to_string(), u64::MAX), Some(n));
    }
    for s in ["", "+", "+5", "-1", "5 ", "255", "256", "0000255", "99999999999999999999", "+-1"] {
        assert_eq!(
            parse_unsigned(s, 255),
            s.parse::<u8>().ok().map(u64::from),
            "{s}"
        );
    }
}
