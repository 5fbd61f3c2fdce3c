use litenote::text::{
    chars_of, contains_chars, count_chars, lines_of, parse_u32_chars, push_decimal, split_chars,
    trimmed,
};

fn tv(s: &str) -> Vec<char> {
    s.chars().collect()
}

#[test]
fn trimming() {
    assert_eq!(trimmed(&tv("  a b \t\n")), tv("a b"));
    assert_eq!(trimmed(&tv("\u{2028}x\u{85}")), tv("x"));
    assert_eq!(trimmed(&tv("   ")), tv(""));
    assert_eq!(trimmed(&tv("\u{200b}x")), tv("\u{200b}x"));
}

#[test]
fn splitting_and_lines() {
    let parts = split_chars(&tv("a\n\nb\n\n\nc"), &tv("\n\n"));
    assert_eq!(parts, vec![tv("a"), tv("b"), tv("\nc")]);
    assert_eq!(split_chars(&tv(""), &tv("\n\n")), vec![tv("")]);
    assert_eq!(lines_of(&tv("a\r\nb\n\nc\r")), vec![tv("a"), tv("b"), tv(""), tv("c\r")]);
    assert_eq!(lines_of(&tv("x\n")), vec![tv("x")]);
    assert_eq!(lines_of(&tv("")), Vec::<Vec<char>>::new());
}

#[test]
fn searching() {
    assert!(contains_chars(&tv("heading1x"), &tv("heading1")));
    assert!(!contains_chars(&tv("head"), &tv("heading1")));
    assert!(contains_chars(&tv("abc"), &tv("")));
    assert_eq!(count_chars(&tv("abababa"), &tv("aba")), 2);
    assert_eq!(count_chars(&tv("abc"), &tv("")), 4);
    assert_eq!(count_chars(&tv("abc"), &tv("x")), 0);
}

#[test]
fn numbers() {
    assert_eq!(parse_u32_chars(&tv("0")), Some(0));
    assert_eq!(parse_u32_chars(&tv("+12")), Some(12));
    assert_eq!(parse_u32_chars(&tv("4294967295")), Some(u32::MAX));
    assert_eq!(parse_u32_chars(&tv("4294967296")), None);
    assert_eq!(parse_u32_chars(&tv("+")), None);
    assert_eq!(parse_u32_chars(&tv("")), None);
    assert_eq!(parse_u32_chars(&tv("1a")), None);
    assert_eq!(parse_u32_chars(&tv("99999999999999999999x")), None);
    for n in [0u32, 7, 10, 305, 65536, u32::MAX] {
        let mut out = Vec::new();
        push_decimal(&mut out, n);
        assert_eq!(out.iter().collect::<String>(), n.to_string());
        assert_eq!(parse_u32_chars(&out), Some(n));
    }
    assert_eq!(chars_of("h\u{e9}"), vec!['h', '\u{e9}']);
}
