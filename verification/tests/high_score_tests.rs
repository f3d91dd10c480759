use sshnake::high_score::{format_high_score, is_whitespace, parse_high_score, parse_u32_decimal};

#[test]
fn plain_numbers() {
    assert_eq!(parse_high_score("0"), 0);
    assert_eq!(parse_high_score("42"), 42);
    assert_eq!(parse_high_score("007"), 7);
    assert_eq!(parse_high_score("4294967295"), u32::MAX);
}

#[test]
fn surrounding_whitespace_is_ignored() {
    assert_eq!(parse_high_score("  120\n"), 120);
    assert_eq!(parse_high_score("\t9 \r\n"), 9);
    assert_eq!(parse_high_score("\u{a0}15\u{3000}"), 15);
}

#[test]
fn a_plus_sign_is_accepted() {
    assert_eq!(parse_high_score("+70"), 70);
    assert_eq!(parse_high_score("+"), 0);
}

#[test]
fn anything_else_counts_as_zero() {
    assert_eq!(parse_high_score(""), 0);
    assert_eq!(parse_high_score("   "), 0);
    assert_eq!(parse_high_score("-5"), 0);
    assert_eq!(parse_high_score("12a"), 0);
    assert_eq!(parse_high_score("1 2"), 0);
    assert_eq!(parse_high_score("4294967296"), 0);
    assert_eq!(parse_high_score("99999999999999999999"), 0);
    assert_eq!(parse_high_score("1_000"), 0);
}

#[test]
fn decimal_parser_follows_u32_from_str() {
    for text in ["0", "42", "+42", "007", "4294967295", "", "+", "-0", "-5", "4294967296", " 1", "1 ", "1_0", "٣"] {
        assert_eq!(parse_u32_decimal(text), text.parse::<u32>().ok(), "{:?}", text);
    }
}

#[test]
fn high_scores_are_saved_as_decimal_text() {
    assert_eq!(format_high_score(0), "0");
    assert_eq!(format_high_score(7), "7");
    assert_eq!(format_high_score(120), "120");
    assert_eq!(format_high_score(1000), "1000");
    assert_eq!(format_high_score(u32::MAX), "4294967295");
}

#[test]
fn a_saved_high_score_reads_back_the_same() {
    for n in [0u32, 9, 10, 50, 120, 7_890, 65_536, u32::MAX - 1, u32::MAX] {
        assert_eq!(format_high_score(n), n.to_string());
        assert_eq!(parse_high_score(&format_high_score(n)), n);
    }
}

#[test]
fn whitespace_is_the_unicode_white_space_set() {
    for c in ['\t', '\n', '\u{b}', '\u{c}', '\r', ' ', '\u{85}', '\u{a0}', '\u{1680}', '\u{2000}', '\u{2005}', '\u{200a}', '\u{2028}', '\u{2029}', '\u{202f}', '\u{205f}', '\u{3000}'] {
        assert!(is_whitespace(c), "{:?}", c);
    }
    for c in ['a', '0', '_', '\u{8}', '\u{e}', '\u{1f}', '\u{200b}', '\u{feff}', '\u{180e}'] {
        assert!(!is_whitespace(c), "{:?}", c);
    }
    for code in 0u32..0x3100 {
        if let Some(c) = char::from_u32(code) {
            assert_eq!(is_whitespace(c), c.is_whitespace(), "{:?}", c);
        }
    }
}
