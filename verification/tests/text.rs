use mjventoy::text::{
    char_is_whitespace, contains_str, parse_u64_str, starts_with_char, str_eq, strip_prefixes_str,
    trim_str, u64_to_decimal, IntErrorKind,
};

#[test]
fn decimal_rendering_matches_to_string() {
    assert_eq!(u64_to_decimal(0), "0");
    assert_eq!(u64_to_decimal(7), "7");
    assert_eq!(u64_to_decimal(10), "10");
    assert_eq!(u64_to_decimal(31250000), "31250000");
    assert_eq!(u64_to_decimal(u64::MAX), u64::MAX.to_string());
}

#[test]
fn substring_search() {
    assert!(contains_str("/dev/nvme0n1", "nvme"));
    assert!(!contains_str("/dev/sda", "nvme"));
    assert!(contains_str("abc", ""));
    assert!(!contains_str("nv", "nvme"));
    assert!(contains_str("loop", "loop"));
}

#[test]
fn text_equality_and_first_character() {
    assert!(str_eq("x86", "x86"));
    assert!(!str_eq("x86", "x86_64"));
    assert!(starts_with_char("/dev/sda", '/'));
    assert!(!starts_with_char("sda", '/'));
    assert!(!starts_with_char("", '/'));
}

#[test]
fn prefix_stripping_repeats() {
    assert_eq!(strip_prefixes_str("/dev//dev/sda", "/dev/"), "sda");
    assert_eq!(strip_prefixes_str("sda", "/dev/"), "sda");
    assert_eq!(strip_prefixes_str("/dev/", "/dev/"), "");
    assert_eq!(strip_prefixes_str("abc", ""), "abc");
}

#[test]
fn trimming_matches_str_trim() {
    for s in ["  a b  ", "\t\n", "", "x", "\u{a0}12\u{3000}", " \u{85}z"] {
        assert_eq!(trim_str(s), s.trim());
    }
    assert!(char_is_whitespace('\u{2028}'));
    assert!(!char_is_whitespace('a'));
}

#[test]
fn parsing_matches_u64_from_str() {
    let cases = [
        "", "+", "-", "-5", "+42", "42", "007", "18446744073709551615", "18446744073709551616",
        "99999999999999999999x", "12x", "x", "1 2", "+-1", "٣",
    ];
    for s in cases {
        let expected = s.parse::<u64>().map_err(|e| e.to_string());
        let got = parse_u64_str(s).map_err(|k| k.message().to_string());
        assert_eq!(got, expected, "input {:?}", s);
    }
}

#[test]
fn parse_error_kinds() {
    assert_eq!(parse_u64_str(""), Err(IntErrorKind::Empty));
    assert_eq!(parse_u64_str("-"), Err(IntErrorKind::InvalidDigit));
    assert_eq!(parse_u64_str("18446744073709551616"), Err(IntErrorKind::PosOverflow));
    assert_eq!(parse_u64_str("99999999999999999999x"), Err(IntErrorKind::PosOverflow));
    assert_eq!(parse_u64_str("+18446744073709551615"), Ok(u64::MAX));
}

#[test]
fn decimal_is_read_back() {
    for n in [0u64, 9, 10, 65536, 31250000, u64::MAX] {
        let s = u64_to_decimal(n);
        assert_eq!(parse_u64_str(&s), Ok(n));
        assert_eq!(mjventoy::executor::parse_sector_count(&format!("{}\n", s)), Ok(n));
    }
}
