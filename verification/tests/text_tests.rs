use oxipulse::text::{parse_u64, parse_usize, split_trimmed_nonempty, str_eq};

#[test]
fn parse_decimal_like_std() {
    for s in ["0", "42", "+7", "007", "18446744073709551615", "18446744073709551616", "", "+", "-1", " 1", "1 ", "1_000", "++1", "\u{0661}"] {
        assert_eq!(parse_u64(s), s.parse::<u64>().ok(), "input {:?}", s);
        assert_eq!(parse_usize(s), s.parse::<usize>().ok(), "input {:?}", s);
    }
}

#[test]
fn split_trim_filter() {
    assert_eq!(split_trimmed_nonempty("", ','), Vec::<String>::new());
    assert_eq!(split_trimmed_nonempty(" a ,b,, c\t", ','), vec!["a", "b", "c"]);
    assert_eq!(split_trimmed_nonempty("\u{a0}x\u{2028}", ','), vec!["x"]);
    assert_eq!(split_trimmed_nonempty("a b", ','), vec!["a b"]);
}

#[test]
fn string_equality() {
    assert!(str_eq("status", "status"));
    assert!(!str_eq("status", "statu"));
    assert!(!str_eq("top", "Top"));
}

#[test]
fn whitespace_matches_std() {
    for u in 0u32..0x11_0000 {
        if let Some(c) = char::from_u32(u) {
            assert_eq!(oxipulse::text::is_whitespace(c), c.is_whitespace(), "char {:#x}", u);
        }
    }
}
