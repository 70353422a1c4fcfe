use person_service::text::{
    chars_of, decimal_string, join_from, parse_u32, push_decimal, scan_in, split, starts_with,
    string_of, whitespace, CharClass,
};

#[test]
fn decimal_of_small_and_large_numbers() {
    assert_eq!(decimal_string(0), "0");
    assert_eq!(decimal_string(7), "7");
    assert_eq!(decimal_string(10), "10");
    assert_eq!(decimal_string(1000), "1000");
    assert_eq!(decimal_string(4294967295), "4294967295");
    assert_eq!(decimal_string(u64::MAX), "18446744073709551615");
}

#[test]
fn decimal_agrees_with_the_standard_formatter() {
    let mut n: u64 = 0;
    while n < 20000 {
        assert_eq!(decimal_string(n), format!("{}", n));
        n += 1;
    }
    let mut m: u64 = 1;
    while m < u64::MAX / 7 {
        assert_eq!(decimal_string(m), format!("{}", m));
        m = m * 7 + 3;
    }
}

#[test]
fn push_decimal_appends() {
    let mut s = String::from("id=");
    push_decimal(&mut s, 42);
    assert_eq!(s, "id=42");
}

#[test]
fn parse_u32_accepts_digits_and_one_plus() {
    assert_eq!(parse_u32("0"), Some(0));
    assert_eq!(parse_u32("30"), Some(30));
    assert_eq!(parse_u32("+5"), Some(5));
    assert_eq!(parse_u32("007"), Some(7));
    assert_eq!(parse_u32("4294967295"), Some(u32::MAX));
    assert_eq!(parse_u32("00000000000000000000004294967295"), Some(u32::MAX));
}

#[test]
fn parse_u32_rejects_everything_else() {
    assert_eq!(parse_u32(""), None);
    assert_eq!(parse_u32("+"), None);
    assert_eq!(parse_u32("-"), None);
    assert_eq!(parse_u32("-1"), None);
    assert_eq!(parse_u32("++1"), None);
    assert_eq!(parse_u32(" 1"), None);
    assert_eq!(parse_u32("1 "), None);
    assert_eq!(parse_u32("12a"), None);
    assert_eq!(parse_u32("1_000"), None);
    assert_eq!(parse_u32("4294967296"), None);
    assert_eq!(parse_u32("99999999999999999999999999"), None);
    assert_eq!(parse_u32("30\0\0"), None);
}

#[test]
fn parse_u32_agrees_with_the_standard_parser() {
    let samples = [
        "", "0", "1", "+1", "-1", "+", "-", "+-1", "12", "0012", "4294967295", "4294967296",
        "42949672950", "1a", "a1", " 1", "1\n", "٣", "1.0", "+0", "-0", "18446744073709551616",
    ];
    for s in samples {
        assert_eq!(parse_u32(s), s.parse::<u32>().ok(), "on {:?}", s);
    }
}

#[test]
fn parse_reads_back_what_decimal_writes() {
    for n in [0u32, 1, 9, 10, 99, 100, 2500, 65535, 65536, u32::MAX - 1, u32::MAX] {
        assert_eq!(parse_u32(&decimal_string(n as u64)), Some(n));
    }
}

#[test]
fn whitespace_agrees_with_the_standard_library_on_every_char() {
    let mut n: u32 = 0;
    while n <= 0x10ffff {
        if let Some(c) = char::from_u32(n) {
            assert_eq!(whitespace(c), c.is_whitespace(), "on U+{:X}", n);
        }
        n += 1;
    }
}

#[test]
fn chars_and_strings_round_trip() {
    let chars = chars_of("héllo wörld");
    assert_eq!(chars.len(), 11);
    assert_eq!(chars[1], 'é');
    assert_eq!(string_of(&chars, 0, chars.len()), "héllo wörld");
    assert_eq!(string_of(&chars, 6, 11), "wörld");
    assert_eq!(string_of(&chars, 3, 3), "");
    assert_eq!(chars_of(""), Vec::<char>::new());
}

#[test]
fn scan_stops_at_the_first_of_the_class() {
    let chars = chars_of("ab cd=ef");
    assert_eq!(scan_in(&chars, 0, chars.len(), CharClass::Space), 2);
    assert_eq!(scan_in(&chars, 2, chars.len(), CharClass::NonSpace), 3);
    assert_eq!(scan_in(&chars, 0, chars.len(), CharClass::Is('=')), 5);
    assert_eq!(scan_in(&chars, 0, chars.len(), CharClass::Is('?')), 8);
    assert_eq!(scan_in(&chars, 0, 4, CharClass::Is('=')), 4);
    assert_eq!(scan_in(&chars, 6, 6, CharClass::Is('e')), 6);
}

#[test]
fn split_keeps_empty_pieces() {
    let texts = |s: &str, sep: char| -> Vec<String> {
        split(&chars_of(s), sep).iter().map(|p| p.iter().collect::<String>()).collect()
    };
    assert_eq!(texts("a&b&c", '&'), vec!["a", "b", "c"]);
    assert_eq!(texts("", '&'), vec![""]);
    assert_eq!(texts("&", '&'), vec!["", ""]);
    assert_eq!(texts("a&&b&", '&'), vec!["a", "", "b", ""]);
    assert_eq!(texts("abc", '&'), vec!["abc"]);
}

#[test]
fn split_agrees_with_the_standard_library() {
    for s in ["", "a", "&", "a&b", "&&", "x=1&y=2&", "&lead", "no separators here"] {
        let ours: Vec<String> =
            split(&chars_of(s), '&').iter().map(|p| p.iter().collect::<String>()).collect();
        let theirs: Vec<String> = s.split('&').map(|p| p.to_string()).collect();
        assert_eq!(ours, theirs, "on {:?}", s);
    }
}

#[test]
fn join_puts_the_separator_between() {
    let pieces = vec![chars_of("a"), chars_of(""), chars_of("bc")];
    assert_eq!(join_from(&pieces, 0, '\n'), "a\n\nbc");
    assert_eq!(join_from(&pieces, 1, '\n'), "\nbc");
    assert_eq!(join_from(&pieces, 2, '\n'), "bc");
    assert_eq!(join_from(&pieces, 3, '\n'), "");
}

#[test]
fn starts_with_compares_the_beginning() {
    assert!(starts_with(&chars_of("/person/12"), &chars_of("/person/")));
    assert!(starts_with(&chars_of("/person/"), &chars_of("/person/")));
    assert!(!starts_with(&chars_of("/person"), &chars_of("/person/")));
    assert!(!starts_with(&chars_of("/people/1"), &chars_of("/person/")));
    assert!(starts_with(&chars_of("anything"), &chars_of("")));
}
