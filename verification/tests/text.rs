use njalla_webhook::text::{
    chars_of, join, ends_with, format_i64, format_u64, is_white_space, parse_bool, parse_u16,
    parse_u32, parse_u64, text_eq, trim_bounds,
};

#[test]
fn decimal_notation_of_numbers() {
    assert_eq!(format_u64(0), "0");
    assert_eq!(format_u64(9), "9");
    assert_eq!(format_u64(10), "10");
    assert_eq!(format_u64(3600), "3600");
    assert_eq!(format_u64(u64::MAX), "18446744073709551615");
    assert_eq!(format_i64(0), "0");
    assert_eq!(format_i64(-32600), "-32600");
    assert_eq!(format_i64(i64::MAX), "9223372036854775807");
    assert_eq!(format_i64(i64::MIN), "-9223372036854775808");
}

#[test]
fn numbers_are_read_as_std_reads_them() {
    for s in [
        "10", "+10", "0010", "0", "4294967295", "4294967296", "99999999999999999999999", "", "+",
        "-", "-1", "1 ", " 1", "1_0", "++1", "+-1", "٣", "1a", "65535", "65536",
        "18446744073709551615", "18446744073709551616",
    ] {
        assert_eq!(parse_u32(s), s.parse::<u32>().ok(), "{s:?}");
        assert_eq!(parse_u16(s), s.parse::<u16>().ok(), "{s:?}");
        assert_eq!(parse_u64(s), s.parse::<u64>().ok(), "{s:?}");
    }
}

#[test]
fn decimal_notation_is_read_back() {
    for n in [0u32, 1, 9, 10, 99, 100, 3600, u32::MAX] {
        assert_eq!(parse_u32(&format_u64(n as u64)), Some(n));
    }
}

#[test]
fn truth_values_are_read_exactly() {
    assert_eq!(parse_bool("true"), Some(true));
    assert_eq!(parse_bool("false"), Some(false));
    for s in ["", "True", "TRUE", "1", "0", "yes", " true", "false "] {
        assert_eq!(parse_bool(s), None, "{s:?}");
    }
}

#[test]
fn suffix_test_agrees_with_std() {
    for (s, x) in [
        ("a.example.com", ".example.com"),
        ("example.com", ".example.com"),
        ("example.com", "example.com"),
        ("x", ""),
        ("", ""),
        ("", "x"),
        ("héllo", "llo"),
        ("héllo", "éllo"),
        ("abc", "abd"),
    ] {
        assert_eq!(ends_with(s, x), s.ends_with(x), "{s:?} {x:?}");
    }
}

#[test]
fn texts_compare_and_join_by_characters() {
    assert!(text_eq("", ""));
    assert!(text_eq("zone", "zone"));
    assert!(!text_eq("zone", "zones"));
    assert!(!text_eq("zone", "zonE"));
    assert_eq!(chars_of("a.é"), vec!['a', '.', 'é']);
    assert_eq!(join("www", ".example.com"), "www.example.com");
    assert_eq!(join("", ""), "");
}

#[test]
fn white_space_is_what_std_calls_white_space() {
    for u in 0u32..0x3100 {
        if let Some(c) = char::from_u32(u) {
            assert_eq!(is_white_space(c), c.is_whitespace(), "{u:#x}");
        }
    }
    assert!(!is_white_space('\u{feff}'));
    assert!(!is_white_space('\u{10ffff}'));
}

#[test]
fn trimming_agrees_with_std() {
    for s in ["", " ", "a", " a", "a ", "  a b \t\n", "\u{3000}x\u{a0}", "   "] {
        let chars = chars_of(s);
        let (from, to) = trim_bounds(&chars, 0, chars.len());
        let kept: String = chars[from..to].iter().collect();
        assert_eq!(kept, s.trim(), "{s:?}");
    }
}
