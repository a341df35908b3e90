use langman::text::{
    collapse_whitespace_str, count_blank_markers, decimal_string, join_strings, parse_usize,
    starts_with, str_equal, trim_str,
};

#[test]
fn trim_removes_surrounding_whitespace() {
    assert_eq!(trim_str("  hola \n\t"), "hola");
    assert_eq!(trim_str("hola"), "hola");
    assert_eq!(trim_str("   "), "");
    assert_eq!(trim_str(""), "");
    assert_eq!(trim_str("\u{a0}sí\u{3000}"), "sí");
}

#[test]
fn collapse_joins_words_with_single_spaces() {
    assert_eq!(collapse_whitespace_str("  Yo   ____ \t pan.\n"), "Yo ____ pan.");
    assert_eq!(collapse_whitespace_str("uno"), "uno");
    assert_eq!(collapse_whitespace_str(" \n "), "");
    assert_eq!(collapse_whitespace_str("a\u{2003}b"), "a b");
}

#[test]
fn blank_markers_are_counted_without_overlap() {
    assert_eq!(count_blank_markers("Yo ____ pan."), 1);
    assert_eq!(count_blank_markers("Yo ___ pan."), 0);
    assert_eq!(count_blank_markers("_____"), 1);
    assert_eq!(count_blank_markers("________"), 2);
    assert_eq!(count_blank_markers("____ y ____"), 2);
    assert_eq!(count_blank_markers(""), 0);
}

#[test]
fn decimal_rendering_matches_to_string() {
    for n in [0usize, 7, 10, 42, 1000, 987654321, usize::MAX] {
        assert_eq!(decimal_string(n), n.to_string());
    }
}

#[test]
fn unsigned_parsing_matches_std() {
    for s in ["0", "6", "+3", "007", "", "+", "-1", "1a", " 1", "18446744073709551615", "18446744073709551616", "99999999999999999999999"] {
        assert_eq!(parse_usize(s), s.parse::<usize>().ok(), "input {:?}", s);
    }
}

#[test]
fn prefix_and_equality_tests() {
    assert!(starts_with("gpt-5.1-mini", "gpt-5.1"));
    assert!(!starts_with("gpt-5", "gpt-5.1"));
    assert!(starts_with("abc", ""));
    assert!(str_equal("ñandú", "ñandú"));
    assert!(!str_equal("ñandú", "nandu"));
    assert!(!str_equal("ab", "abc"));
}

#[test]
fn join_puts_separator_between_parts() {
    let parts = vec!["a".to_string(), "b".to_string(), "c".to_string()];
    assert_eq!(join_strings(&parts, " | "), "a | b | c");
    assert_eq!(join_strings(&vec!["solo".to_string()], "\n"), "solo");
    assert_eq!(join_strings(&Vec::new(), "\n"), "");
}

#[test]
fn whitespace_test_matches_std_on_every_char() {
    for code in 0u32..=0x10FFFF {
        if let Some(c) = char::from_u32(code) {
            assert_eq!(langman::text::char_is_whitespace(c), c.is_whitespace(), "U+{:04X}", code);
        }
    }
}
