use agon_control::query::{parse_int, query_int, query_str};
use agon_control::text::{append_decimal, digit, is_white_space, run, same_text, trim, Class};

#[test]
fn white_space_is_what_unicode_says() {
    for n in 0..=0x10ffffu32 {
        if let Some(c) = char::from_u32(n) {
            assert_eq!(is_white_space(c), c.is_whitespace(), "{:x}", n);
        }
    }
}

#[test]
fn trims_both_ends() {
    assert_eq!(trim("  a b\t\n"), "a b");
    assert_eq!(trim("\u{3000}x\u{2028}"), "x");
    assert_eq!(trim("   "), "");
    assert_eq!(trim(""), "");
}

#[test]
fn scans_runs_by_characters() {
    assert_eq!(run("\u{e9}\u{e9}&x", Class::Except('&')), 2);
    assert_eq!(run("abc", Class::Except('&')), 3);
    assert_eq!(run("", Class::Blank), 0);
    assert_eq!(run("ab c", Class::Word), 2);
}

#[test]
fn compares_whole_texts() {
    assert!(same_text("/key", "/key"));
    assert!(!same_text("/key", "/kez"));
    assert!(!same_text("/key", "/keys"));
    assert!(same_text("", ""));
}

#[test]
fn digits_in_both_bases() {
    assert_eq!(digit('7', 10), Some(7));
    assert_eq!(digit('a', 10), None);
    assert_eq!(digit('a', 16), Some(10));
    assert_eq!(digit('F', 16), Some(15));
    assert_eq!(digit('g', 16), None);
    assert_eq!(digit('\u{661}', 10), None);
}

#[test]
fn writes_decimals() {
    for n in [0u64, 9, 10, 11, 99, 100, 12345, u64::MAX] {
        let mut out = String::from("=");
        append_decimal(&mut out, n);
        assert_eq!(out, format!("={}", n));
    }
}

#[test]
fn parses_decimal_and_hexadecimal() {
    assert_eq!(parse_int("0"), Some(0));
    assert_eq!(parse_int("42"), Some(42));
    assert_eq!(parse_int("+42"), Some(42));
    assert_eq!(parse_int("0042"), Some(42));
    assert_eq!(parse_int("0x1F"), Some(31));
    assert_eq!(parse_int("0X1f"), Some(31));
    assert_eq!(parse_int("0x+1f"), Some(31));
    assert_eq!(parse_int(" 12 "), Some(12));
    assert_eq!(parse_int("4294967295"), Some(u32::MAX));
    assert_eq!(parse_int("0xffffffff"), Some(u32::MAX));
}

#[test]
fn turns_down_what_is_no_number() {
    for s in ["", "+", "-", "-0", "-1", "1 2", "12a", "0x", "0x ", "0xg", "1f", "++1", "4294967296", "0x100000000", "99999999999999999999", "1_000"] {
        assert_eq!(parse_int(s), None, "{:?}", s);
    }
}

#[test]
fn number_parsing_agrees_with_the_standard_library() {
    for s in ["", "+", "+7", "-7", "07", "1_0", "4294967295", "4294967296", "00000000000000000001", "12x", "\u{663}"] {
        assert_eq!(parse_int(s), s.parse::<u32>().ok(), "{:?}", s);
        let hex = format!("0x{}", s);
        assert_eq!(parse_int(&hex), u32::from_str_radix(s, 16).ok(), "{:?}", hex);
    }
}

#[test]
fn decimal_numbers_are_read_back() {
    for n in [0u32, 1, 9, 10, 65536, 0xffffff, u32::MAX] {
        let mut out = String::new();
        append_decimal(&mut out, n as u64);
        assert_eq!(parse_int(&out), Some(n));
    }
}

#[test]
fn hexadecimal_numbers_are_read_back() {
    for n in [0u32, 1, 9, 10, 15, 16, 0xabcdef, 0x9f8e7d, u32::MAX] {
        for s in [format!("0x{:x}", n), format!("0X{:x}", n), format!("0x{:X}", n), format!("0X{:X}", n)] {
            assert_eq!(parse_int(&s), Some(n), "{}", s);
        }
    }
    assert_eq!(parse_int("0xaBcD"), Some(0xabcd));
}

#[test]
fn finds_the_first_pair() {
    assert_eq!(query_str("a=1&b=2&a=3", "a"), Some("1"));
    assert_eq!(query_str("a=1&b=2&a=3", "b"), Some("2"));
    assert_eq!(query_str("a=1&b=2", "c"), None);
    assert_eq!(query_str("", "a"), None);
}

#[test]
fn pairs_split_at_the_first_equals_sign() {
    assert_eq!(query_str("a=b=c", "a"), Some("b=c"));
    assert_eq!(query_str("a", "a"), None);
    assert_eq!(query_str("a&a=2", "a"), Some("2"));
    assert_eq!(query_str("=x", ""), Some("x"));
    assert_eq!(query_str("a=", "a"), Some(""));
    assert_eq!(query_str("&&a=1&", "a"), Some("1"));
}

#[test]
fn first_pair_decides_even_if_malformed() {
    assert_eq!(query_int("a=x&a=3", "a"), None);
    assert_eq!(query_int("a=0x10&b=7", "a"), Some(16));
    assert_eq!(query_int("b=7", "a"), None);
}

#[test]
fn joined_queries_look_into_the_first_and_then_the_second() {
    assert_eq!(query_str("x=1&y=2", "y"), query_str("y=2", "y"));
    assert_eq!(query_str("addr=1&len=2&bank=3", "len"), Some("2"));
    assert_eq!(query_str("bank=3&addr=1&len=2", "len"), Some("2"));
}
