use http_server::text::{
    chars_of, has_suffix, has_text, is_space_char, leading_spaces, leading_word, position,
    same_chars, same_text, split_lines, split_words, str_contains, str_ends_with, trim_str,
    trimmed_len,
};

#[test]
fn white_space_is_what_unicode_says() {
    for code in 0u32..0x11000 {
        if let Some(c) = char::from_u32(code) {
            assert_eq!(is_space_char(c), c.is_whitespace(), "U+{:04X}", code);
        }
    }
}

#[test]
fn chars_of_gives_each_character() {
    assert_eq!(chars_of("a\u{e9}\u{4e2d}"), vec!['a', '\u{e9}', '\u{4e2d}']);
    assert_eq!(chars_of(""), Vec::<char>::new());
}

#[test]
fn same_text_compares_characters() {
    assert!(same_text("abc", "abc"));
    assert!(!same_text("abc", "abd"));
    assert!(!same_text("abc", "ab"));
    assert!(same_text("", ""));
    assert!(same_chars(&['x'], &['x']));
    assert!(!same_chars(&['x'], &[]));
}

#[test]
fn position_is_the_first_occurrence() {
    assert_eq!(position(&['a', ':', 'b', ':'], ':'), 1);
    assert_eq!(position(&['a', 'b'], ':'), 2);
    assert_eq!(position(&[], ':'), 0);
}

#[test]
fn leading_runs_are_counted() {
    assert_eq!(leading_spaces(&[' ', '\t', 'x', ' ']), 2);
    assert_eq!(leading_spaces(&['x']), 0);
    assert_eq!(leading_word(&['a', 'b', ' ', 'c']), 2);
    assert_eq!(leading_word(&[' ']), 0);
    assert_eq!(trimmed_len(&['a', ' ', 'b', ' ', '\n']), 3);
    assert_eq!(trimmed_len(&[' ', ' ']), 0);
}

#[test]
fn trim_matches_std() {
    for s in ["", " ", "a", "  a b \t\r\n", "\u{a0}x\u{2003}", "no-space", " \u{85} "] {
        assert_eq!(trim_str(s), s.trim(), "{:?}", s);
    }
}

#[test]
fn words_match_std() {
    for s in ["", "   ", "GET / HTTP/1.1", "  a\tb\u{3000}c  ", "one", "x  y"] {
        let expected: Vec<&str> = s.split_whitespace().collect();
        assert_eq!(split_words(s), expected, "{:?}", s);
    }
}

#[test]
fn lines_match_std() {
    for s in [
        "",
        "\n",
        "\r\n",
        "a",
        "a\n",
        "a\r\n",
        "a\r",
        "a\nb",
        "a\r\n\r\nb\r\n",
        "\n\n",
        "a\r\rb\n\rc",
        "GET /search HTTP/1.1\r\nAccept:text/html\r\nHost:localhost\r\n\r\nhello",
    ] {
        let expected: Vec<&str> = s.lines().collect();
        assert_eq!(split_lines(s), expected, "{:?}", s);
    }
}

#[test]
fn contains_finds_a_pattern_anywhere() {
    assert!(str_contains("GET / HTTP/1.1", "HTTP"));
    assert!(str_contains("HTTP", "HTTP"));
    assert!(!str_contains("HTT", "HTTP"));
    assert!(!str_contains("HTtP HtTP", "HTTP"));
    assert!(str_contains("abc", ""));
    assert!(str_contains("", ""));
    assert!(has_text(&['a', 'b', 'c'], &['b', 'c']));
    assert!(!has_text(&['a', 'b', 'c'], &['c', 'b']));
}

#[test]
fn ends_with_looks_at_the_end() {
    assert!(str_ends_with("site.css", ".css"));
    assert!(!str_ends_with("site.css.bak", ".css"));
    assert!(!str_ends_with("css", ".css"));
    assert!(str_ends_with("x", ""));
    assert!(has_suffix(&['a', 'b'], &['b']));
    assert!(!has_suffix(&['a', 'b'], &['a']));
}
