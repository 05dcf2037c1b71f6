use musicpresence::text::{
    chars_of, contains_seq, ends_with_seq, is_whitespace, parse_u64, replace_str, same_text,
    to_lowercase, trim_string, utf8_width,
};

#[test]
fn whitespace_matches_std_for_every_char() {
    for u in 0u32..=0x10FFFF {
        if let Some(c) = char::from_u32(u) {
            assert_eq!(is_whitespace(c), c.is_whitespace(), "U+{:04X}", u);
        }
    }
}

#[test]
fn utf8_width_matches_std() {
    for c in ['a', '\u{7f}', '\u{80}', 'é', '\u{7ff}', '\u{800}', '€', '\u{ffff}', '\u{10000}', '🎵'] {
        assert_eq!(utf8_width(c), c.len_utf8());
    }
}

#[test]
fn trim_matches_std() {
    for s in ["", "  ", " a ", "\t\nab c\r\n", "\u{3000}x\u{2003}", "no-trim", "\u{85}y"] {
        assert_eq!(trim_string(s), s.trim());
    }
}

#[test]
fn parse_u64_matches_std() {
    for s in [
        "", "0", "7", "+7", "+", "-1", "-0", "12a", " 1", "007", "18446744073709551615",
        "18446744073709551616", "99999999999999999999999", "1_000",
    ] {
        let v = chars_of(s);
        assert_eq!(parse_u64(&v), s.parse::<u64>().ok(), "{:?}", s);
    }
}

#[test]
fn replace_matches_std() {
    let cases = [
        ("abcabc", "bc", "X"),
        ("aaaa", "aa", "b"),
        ("100x100bb.jpg", "100x100bb", "1024x1024bb"),
        ("nothing", "zz", "y"),
        ("", "a", "b"),
        ("aaa", "aa", "aaa"),
    ];
    for (s, p, r) in cases {
        assert_eq!(replace_str(s, p, r), s.replace(p, r));
    }
}

#[test]
fn contains_and_ends_with() {
    let s = chars_of("MusicPresence.exe");
    assert!(contains_seq(&s, &chars_of("Presence")));
    assert!(contains_seq(&s, &chars_of("")));
    assert!(!contains_seq(&s, &chars_of("presence")));
    assert!(ends_with_seq(&s, &chars_of(".exe")));
    assert!(!ends_with_seq(&s, &chars_of(".zip")));
    assert!(!ends_with_seq(&chars_of("exe"), &chars_of(".exe")));
}

#[test]
fn same_text_compares_characters() {
    assert!(same_text("abc", "abc"));
    assert!(!same_text("abc", "abd"));
    assert!(!same_text("abc", "ab"));
}

#[test]
fn lowercase_wrapper_lowercases() {
    assert_eq!(to_lowercase("Apple MUSIC"), "apple music");
    assert_eq!(to_lowercase("ÀÉ"), "àé");
}

#[test]
fn byte_search() {
    assert!(contains_seq(b"{\"evt\":\"READY\"}".as_slice(), b"READY".as_slice()));
    assert!(!contains_seq(b"RE".as_slice(), b"READY".as_slice()));
    assert!(ends_with_seq(b"abc".as_slice(), b"bc".as_slice()));
}
