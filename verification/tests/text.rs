use cpu_display::text::{append_decimal, char_is_whitespace, chars_of, parse_unsigned};

#[test]
fn whitespace_is_what_the_standard_library_trims() {
    for code in 0u32..=0x10_ffff {
        if let Some(c) = char::from_u32(code) {
            assert_eq!(char_is_whitespace(c), c.is_whitespace());
        }
    }
}

#[test]
fn chars_of_keeps_every_character() {
    assert_eq!(chars_of(""), Vec::<char>::new());
    assert_eq!(chars_of("k10temp\n"), vec!['k', '1', '0', 't', 'e', 'm', 'p', '\n']);
    assert_eq!(chars_of("4\u{b0}C"), vec!['4', '\u{b0}', 'C']);
}

#[test]
fn parse_unsigned_reads_numbers() {
    assert_eq!(parse_unsigned("0", u64::MAX), Some(0));
    assert_eq!(parse_unsigned("7", u64::MAX), Some(7));
    assert_eq!(parse_unsigned("45000\n", u64::MAX), Some(45000));
    assert_eq!(parse_unsigned("\t 45000 \r\n", u64::MAX), Some(45000));
    assert_eq!(parse_unsigned("+45000", u64::MAX), Some(45000));
    assert_eq!(parse_unsigned("000123", u64::MAX), Some(123));
    assert_eq!(parse_unsigned("00000000000000000000000000000000000042", u64::MAX), Some(42));
    assert_eq!(parse_unsigned("18446744073709551615", u64::MAX), Some(u64::MAX));
}

#[test]
fn parse_unsigned_rejects_what_is_not_a_number() {
    for text in [
        "", " ", "\n", "+", "-", "+ 1", "++1", "-1", "1-", "1 2", "1_000", "12a", "a12", "1.0",
        "0x1f", "١٢٣", "1\u{0}", "18446744073709551616", "99999999999999999999999",
    ] {
        assert_eq!(parse_unsigned(text, u64::MAX), None);
    }
}

#[test]
fn parse_unsigned_trims_white_space_at_both_ends_only() {
    assert_eq!(parse_unsigned(" \t 123 \n", u64::MAX), Some(123));
    assert_eq!(parse_unsigned("\u{2003}123\u{a0}", u64::MAX), Some(123));
    assert_eq!(parse_unsigned("\u{3000}\u{85}7\u{1680}\u{2028}\u{2029}\u{202f}\u{205f}", u64::MAX), Some(7));
    assert_eq!(parse_unsigned(" \n\t ", u64::MAX), None);
    assert_eq!(parse_unsigned("1\n2", u64::MAX), None);
    assert_eq!(parse_unsigned("\u{200b}12", u64::MAX), None);
}

#[test]
fn parse_unsigned_keeps_to_its_limit() {
    assert_eq!(parse_unsigned("255", 255), Some(255));
    assert_eq!(parse_unsigned("256", 255), None);
    assert_eq!(parse_unsigned("0", 0), Some(0));
    assert_eq!(parse_unsigned("000", 0), Some(0));
    assert_eq!(parse_unsigned("1", 0), None);
    assert_eq!(parse_unsigned("9", 8), None);
    assert_eq!(parse_unsigned("10", 9), None);
    assert_eq!(parse_unsigned("4294967295", 0xffff_ffff), Some(4294967295));
    assert_eq!(parse_unsigned("4294967296", 0xffff_ffff), None);
}

#[test]
fn parse_unsigned_agrees_with_the_standard_library() {
    let texts = [
        "0", "1", "45000", " 45000", "45000 ", "\n45000\n", "+1", "+0", "+", "", "-0", "- 1",
        "00", "007", "1e3", "٣", "12\u{a0}", "\u{2003}12", "\u{feff}12", "12\u{200b}",
        "4294967295", "4294967296", "18446744073709551615", "18446744073709551616",
        "184467440737095516150", "+18446744073709551615", " +7 ", "+ 7", "7+", "1,000",
    ];
    for text in texts {
        assert_eq!(parse_unsigned(text, u64::MAX), text.trim().parse::<u64>().ok());
        assert_eq!(
            parse_unsigned(text, 0xffff_ffff),
            text.trim().parse::<u32>().ok().map(|v| v as u64)
        );
    }
}

#[test]
fn append_decimal_writes_base_ten() {
    for n in [0u64, 1, 9, 10, 19, 99, 100, 101, 4096, 1_000_000, u32::MAX as u64, u64::MAX] {
        let mut out = String::from("hwmon");
        append_decimal(&mut out, n);
        assert_eq!(out, format!("hwmon{}", n));
    }
}

#[test]
fn append_decimal_then_parse_gives_the_number_back() {
    for n in [0u64, 5, 10, 12345, 1 << 40, u64::MAX - 1, u64::MAX] {
        let mut out = String::new();
        append_decimal(&mut out, n);
        assert_eq!(parse_unsigned(&out, u64::MAX), Some(n));
    }
}
