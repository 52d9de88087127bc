//! Texts, against the standard library's own functions.

use rootle_bitbucket::text;

const SAMPLES: [&str; 16] = [
    "",
    " ",
    "a",
    "  two  words ",
    "tab\tand\nfeed",
    "a/b/c",
    "/",
    "trailing/",
    "...rs",
    ".",
    "line one\nline two\n",
    "crlf\r\nnext\r\n\nlast",
    "\r\n",
    "\r",
    "äöü ß\u{a0}x\u{3000}y",
    "\u{2003}wide\u{2003}",
];

#[test]
fn white_space_is_what_unicode_says() {
    for n in 0..=0x10FFFFu32 {
        if let Some(c) = char::from_u32(n) {
            assert_eq!(text::is_white_space(c), c.is_whitespace(), "{n:x}");
        }
    }
}

#[test]
fn splitting_agrees_with_std() {
    for s in SAMPLES {
        assert_eq!(text::trim(s), s.trim());
        assert_eq!(text::split_words(s), s.split_whitespace().collect::<Vec<_>>());
        assert_eq!(text::lines(s), s.lines().collect::<Vec<_>>());
        assert_eq!(text::trim_start(s, '.'), s.trim_start_matches('.'));
        assert_eq!(text::trim_end(s, '/'), s.trim_end_matches('/'));
        let split = text::split_once(s, '/');
        assert_eq!(split, s.split_once('/').map(|(a, b)| (a.to_string(), b.to_string())));
    }
}

#[test]
fn searching_agrees_with_std() {
    for s in SAMPLES {
        for t in SAMPLES {
            assert_eq!(text::same(s, t), s == t);
            assert_eq!(text::contains(s, t), s.contains(t));
            assert_eq!(text::starts_with(s, t), s.starts_with(t));
            assert_eq!(text::ends_with(s, t), s.ends_with(t));
            assert_eq!(text::strip_prefix(s, t).as_deref(), s.strip_prefix(t));
        }
    }
}

#[test]
fn numbers_agree_with_std() {
    for n in [0, 1, 9, 10, 42, 1048577, u64::MAX] {
        assert_eq!(text::number(n), n.to_string());
        assert_eq!(text::parse_unsigned(&n.to_string()), Some(n));
    }
    for s in ["", "+", "-1", "+7", "007", " 1", "1 ", "12a", "18446744073709551616", "٣"] {
        assert_eq!(text::parse_unsigned(s), s.parse::<u64>().ok(), "{s}");
    }
}
