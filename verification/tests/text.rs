use oracle_backend::ordered::NameMap;
use oracle_backend::text::{
    contains, eq_ignore_ascii_case, is_blank, parse_u64, push_i128, push_u128, same_text,
    starts_with, trim, u64_text,
};

#[test]
fn blank_and_trim_follow_white_space() {
    assert!(is_blank("") && is_blank(" \t\r\n\u{a0}\u{2003}\u{3000}"));
    assert!(!is_blank(" a ") && !is_blank("\u{200b}"));
    for s in ["", "  ", " a b ", "\u{3000}x\u{85}", "x", "\n\tx y\u{2028}"] {
        assert_eq!(trim(s), s.trim());
        assert_eq!(is_blank(s), s.trim().is_empty());
    }
}

#[test]
fn white_space_is_unicode_white_space() {
    for n in 0..=0x10FFFFu32 {
        if let Some(c) = char::from_u32(n) {
            if is_blank(c.encode_utf8(&mut [0; 4])) != c.is_whitespace() {
                panic!("{n:x}");
            }
        }
    }
}

#[test]
fn searching() {
    assert!(contains("abc", "bc") && contains("abc", "") && contains("", ""));
    assert!(!contains("abc", "ac") && !contains("", "a"));
    assert!(starts_with("cred://x", "cred://") && !starts_with("xcred://", "cred://"));
    assert!(starts_with("a", "") && !starts_with("", "a"));
    assert!(same_text("a\u{e9}", "a\u{e9}") && !same_text("a", "ab") && !same_text("a", "b"));
    assert!(eq_ignore_ascii_case("MCPG-Tool", "mcpg-tOOL"));
    assert!(!eq_ignore_ascii_case("\u{c9}", "\u{e9}") && !eq_ignore_ascii_case("[", "{"));
}

#[test]
fn numerals() {
    for n in [0u64, 1, 9, 10, 99, 100, 1_000_007, u64::MAX] {
        assert_eq!(u64_text(n), n.to_string());
        assert_eq!(parse_u64(&u64_text(n)), Some(n));
    }
    for n in [0i128, -1, 10, i64::MIN as i128, i128::MAX, i128::MIN] {
        let mut s = "n=".to_owned();
        push_i128(&mut s, n);
        assert_eq!(s, format!("n={n}"));
    }
    let mut s = String::new();
    push_u128(&mut s, u128::MAX);
    assert_eq!(s, u128::MAX.to_string());
}

#[test]
fn reading_numerals() {
    for s in [
        "", "+", "-", "-1", "+7", "007", "18446744073709551615", "18446744073709551616", "1 ",
        " 1", "1a", "\u{0661}", "++1", "99999999999999999999999999999999999999999",
    ] {
        assert_eq!(parse_u64(s), s.parse::<u64>().ok(), "{s}");
    }
}

#[test]
fn names_are_kept_in_order() {
    let mut map: NameMap<u32> = NameMap::new();
    for (i, name) in ["b", "a", "", "ab", "b", "\u{e9}", "Z"].into_iter().enumerate() {
        map.insert(name.to_owned(), i as u32);
    }
    let names: Vec<&str> = (0..map.len()).map(|i| map.name_at(i)).collect();
    assert_eq!(names, vec!["", "Z", "a", "ab", "b", "\u{e9}"]);
    assert_eq!(map.get("b"), Some(&4));
    assert_eq!(map.get("c"), None);
    assert_eq!(*map.value_at(1), 6);
}
