use give_me_dns::text::chars_of;
use give_me_dns::text::joined;
use give_me_dns::text::lines;
use give_me_dns::text::push_decimal;
use give_me_dns::text::string_of;
use give_me_dns::text::strip_prefixes;
use give_me_dns::text::trim;

#[test]
fn white_space_is_that_of_unicode() {
    let listed: Vec<u32> = vec![
        0x9, 0xa, 0xb, 0xc, 0xd, 0x20, 0x85, 0xa0, 0x1680, 0x2000, 0x2001, 0x2002, 0x2003, 0x2004,
        0x2005, 0x2006, 0x2007, 0x2008, 0x2009, 0x200a, 0x2028, 0x2029, 0x202f, 0x205f, 0x3000,
    ];
    for u in 0..=0x10ffffu32 {
        if let Some(c) = char::from_u32(u) {
            assert_eq!(trim(&[c]).is_empty(), listed.contains(&u), "{:x}", u);
        }
    }
}

#[test]
fn lines_end_at_line_feeds() {
    for text in ["", "a", "a\n", "a\nb", "a\r\nb\r", "\n\n", "\r\n", "x\ry\n", "a\n\nb\r\n\r"] {
        let found: Vec<String> =
            lines(&chars_of(text)).iter().map(|line| string_of(line)).collect();
        let expected: Vec<String> = text.lines().map(|line| line.to_string()).collect();
        assert_eq!(found, expected, "{:?}", text);
    }
}

#[test]
fn prefixes_are_taken_off_as_often_as_they_stand() {
    let strip = |s: &str, p: &str| string_of(&strip_prefixes(&chars_of(s), &chars_of(p)));
    assert_eq!(strip("abababc", "ab"), "c");
    assert_eq!(strip("abc", "b"), "abc");
    assert_eq!(strip("aaa", "a"), "");
    assert_eq!(strip("abc", ""), "abc");
    assert_eq!(strip("Key:Key: x", "Key:"), " x");
}

#[test]
fn white_space_is_trimmed_at_both_ends() {
    assert_eq!(string_of(&trim(&chars_of(" \t a b \u{3000}"))), "a b");
    assert_eq!(string_of(&trim(&chars_of("  "))), "");
}

#[test]
fn numbers_are_written_in_decimal() {
    for n in [0u64, 7, 10, 99, 100, 65535, u64::MAX] {
        let mut s = String::from("n=");
        push_decimal(&mut s, n);
        assert_eq!(s, format!("n={}", n));
    }
    assert_eq!(joined("ab", "\u{e9}"), "ab\u{e9}");
}
