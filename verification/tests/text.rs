use github_notifications::text;

#[test]
fn searching_agrees_with_std() {
    let samples = ["", "a", "a/b", "/", "//", "a//b", "\u{e9}/x", " a b ", "aab", "\u{2003}x\t"];
    for s in samples {
        for p in ["", "/", "a", "ab", "b "] {
            assert_eq!(text::contains(s, p), s.contains(p), "{s:?} {p:?}");
            assert_eq!(text::strip_prefix(s, p), s.strip_prefix(p));
            assert_eq!(text::strip_suffix(s, p), s.strip_suffix(p));
            assert_eq!(text::split_once(s, p), s.split_once(p), "{s:?} {p:?}");
            assert_eq!(text::str_lt(s, p), s < p);
            assert_eq!(text::str_eq(s, p), s == p);
        }
        assert_eq!(text::trim(s), s.trim());
        assert_eq!(text::trim_start(s), s.trim_start());
        assert_eq!(text::last_segment(s, '/'), s.rsplit('/').next().expect("one"));
        assert_eq!(text::trim_leading(s, '/'), s.trim_start_matches('/'));
        assert_eq!(
            text::split(s, '/'),
            s.split('/').map(str::to_string).collect::<Vec<_>>()
        );
    }
}

#[test]
fn spaces_are_those_of_std() {
    for n in 0..0x3100u32 {
        if let Some(c) = char::from_u32(n) {
            assert_eq!(text::char_is_space(c), c.is_whitespace(), "{n:x}");
        }
    }
}

#[test]
fn numbers_agree_with_std() {
    for s in ["0", "7", "+7", "-7", "", "+", "007", "65535", "65536", "9x", "\u{661}"] {
        assert_eq!(
            text::parse_number(s, 65535),
            s.parse::<u16>().ok().map(u64::from),
            "{s:?}"
        );
        assert_eq!(
            text::parse_number(s, u64::MAX),
            s.parse::<u64>().ok(),
            "{s:?}"
        );
    }
    for n in [0u128, 9, 10, 123, u64::MAX as u128 + 1] {
        assert_eq!(text::decimal_text(n), n.to_string());
    }
    for n in [0i64, -1, 42, i64::MIN, i64::MAX] {
        assert_eq!(text::signed_decimal_text(n), n.to_string());
    }
}

#[test]
fn outside_text_is_read_as_std_reads_it() {
    assert_eq!(text::from_utf8_lossy("gr\u{fc}n".as_bytes()), "gr\u{fc}n");
    assert_eq!(text::from_utf8_lossy(&[0x61, 0xff]), "a\u{fffd}");
    assert_eq!(text::quoted("a\n\"b\""), "\"a\\n\\\"b\\\"\"");
}
