use compute_toy::pp::ErrorKind;
use compute_toy::utils::{
    chars_of, is_whitespace, numeral_of, parse_u32, split_lines, split_tokens, string_of,
};

fn text(v: &Vec<char>) -> String {
    v.iter().collect()
}

#[test]
fn parses_decimal_literal() {
    assert_eq!(parse_u32("42", 1).unwrap(), 42);
    assert_eq!(parse_u32("0", 1).unwrap(), 0);
    assert_eq!(parse_u32("4294967295", 1).unwrap(), u32::MAX);
}

#[test]
fn parses_hex_literal() {
    assert_eq!(parse_u32("0x10", 1).unwrap(), 16);
    assert_eq!(parse_u32("0xfF", 1).unwrap(), 255);
    assert_eq!(parse_u32("0xffffffff", 1).unwrap(), u32::MAX);
}

#[test]
fn strips_white_space_and_unsigned_suffix() {
    assert_eq!(parse_u32(" 0xffu ", 3).unwrap(), 255);
    assert_eq!(parse_u32("\t12u\n", 3).unwrap(), 12);
    assert_eq!(parse_u32("7uuu", 3).unwrap(), 7);
    assert_eq!(parse_u32("\u{a0}5\u{3000}", 3).unwrap(), 5);
}

#[test]
fn accepts_plus_sign_and_leading_zeros() {
    assert_eq!(parse_u32("+5", 1).unwrap(), 5);
    assert_eq!(parse_u32("0x+1f", 1).unwrap(), 31);
    assert_eq!(parse_u32("000000000000000000017", 1).unwrap(), 17);
}

#[test]
fn rejects_malformed_hex_literal() {
    let e = parse_u32("0xZZ", 12).unwrap_err();
    assert_eq!(e.line, 12);
    assert_eq!(e.kind, ErrorKind::Syntax);
    assert_eq!(e.summary, "Cannot parse '0xZZ' as u32");
}

#[test]
fn error_quotes_the_trimmed_literal() {
    let e = parse_u32("  12x4u ", 7).unwrap_err();
    assert_eq!(e.summary, "Cannot parse '12x4' as u32");
    assert_eq!(e.line, 7);
}

#[test]
fn rejects_values_beyond_32_bits() {
    assert!(parse_u32("4294967296", 1).is_err());
    assert!(parse_u32("0x100000000", 1).is_err());
    assert!(parse_u32("99999999999999999999999999", 1).is_err());
}

#[test]
fn rejects_empty_and_signed_literals() {
    assert!(parse_u32("", 1).is_err());
    assert!(parse_u32("   ", 1).is_err());
    assert!(parse_u32("u", 1).is_err());
    assert!(parse_u32("+", 1).is_err());
    assert!(parse_u32("-1", 1).is_err());
    assert!(parse_u32("0x", 1).is_err());
    assert!(parse_u32("0X10", 1).is_err());
    assert!(parse_u32("1 2", 1).is_err());
    assert!(parse_u32("12 u", 1).is_err());
    assert!(parse_u32("1f", 1).is_err());
}

#[test]
fn agrees_with_the_standard_parsers() {
    for s in ["1", "+1", "01", "fff", "0xabc", "0xABC", "12345678901", "0x+0", "++1", "1_0"] {
        let body = s.trim().trim_end_matches('u');
        let expected = if let Some(hex) = body.strip_prefix("0x") {
            u32::from_str_radix(hex, 16).ok()
        } else {
            body.parse::<u32>().ok()
        };
        assert_eq!(parse_u32(s, 1).ok(), expected, "{}", s);
    }
}

#[test]
fn numeral_is_trimmed_and_stripped() {
    assert_eq!(text(&numeral_of(&chars_of("  0x1fu  "))), "0x1f");
    assert_eq!(text(&numeral_of(&chars_of("uu"))), "");
    assert_eq!(text(&numeral_of(&chars_of("a u"))), "a ");
}

#[test]
fn chars_of_copies_the_text() {
    assert_eq!(chars_of("añb"), vec!['a', 'ñ', 'b']);
    assert_eq!(chars_of(""), Vec::<char>::new());
}

#[test]
fn splits_lines_at_line_feeds() {
    let ls: Vec<String> = split_lines(&chars_of("a\n\nbc\n")).iter().map(text).collect();
    assert_eq!(ls, vec!["a", "", "bc"]);
    let ls: Vec<String> = split_lines(&chars_of("a\nb")).iter().map(text).collect();
    assert_eq!(ls, vec!["a", "b"]);
    assert!(split_lines(&chars_of("")).is_empty());
    let ls: Vec<String> = split_lines(&chars_of("\n")).iter().map(text).collect();
    assert_eq!(ls, vec![""]);
}

#[test]
fn lines_agree_with_the_standard_iterator() {
    for s in ["", "x", "x\n", "x\ny", "\n\n", "a\n\nb\n\n"] {
        let ours: Vec<String> = split_lines(&chars_of(s)).iter().map(text).collect();
        let theirs: Vec<String> = s.lines().map(|l| l.to_string()).collect();
        assert_eq!(ours, theirs, "{:?}", s);
    }
}

#[test]
fn splits_tokens_at_white_space() {
    let ts: Vec<String> = split_tokens(&chars_of("  #dispatch  main\t1 2  3 ")).iter().map(text).collect();
    assert_eq!(ts, vec!["#dispatch", "main", "1", "2", "3"]);
    assert!(split_tokens(&chars_of("   ")).is_empty());
    assert!(split_tokens(&chars_of("")).is_empty());
}

#[test]
fn white_space_is_the_unicode_property() {
    for code in 0..=0x10ffffu32 {
        if let Some(c) = char::from_u32(code) {
            assert_eq!(is_whitespace(c), c.is_whitespace(), "{:#x}", code);
        }
    }
}

#[test]
fn string_of_joins_the_characters() {
    assert_eq!(string_of(&vec!['a', 'ß', '\n', '字']), "aß\n字");
    assert_eq!(string_of(&vec![]), "");
}

#[test]
fn tokens_agree_with_the_standard_iterator() {
    for s in ["", " ", "a", " a b ", "a\tb\u{a0}c", "#x  y\r", "\u{2003}wide\u{2003}space"] {
        let ours: Vec<String> = split_tokens(&chars_of(s)).iter().map(text).collect();
        let theirs: Vec<String> = s.split_whitespace().map(|t| t.to_string()).collect();
        assert_eq!(ours, theirs, "{:?}", s);
    }
}

#[test]
fn errors_are_shown_with_their_line() {
    use_error(0, "line 0: m");
    use_error(7, "line 7: m");
    use_error(10, "line 10: m");
    use_error(1234567890, "line 1234567890: m");
}

fn use_error(line: usize, expected: &str) {
    let e = compute_toy::pp::WGSLError::new("m".to_string(), line);
    assert_eq!(e.kind, ErrorKind::Syntax);
    assert_eq!(e.to_text(), expected);
}
