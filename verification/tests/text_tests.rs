use fischys_fancontrol::text::{
    char_lt, chars_of, compare_text, concat_str, digit_to_char, find_char, format_radix, parse_unsigned, string_from_chars,
    string_from_range, text_eq, trim_chars, TextOrder,
};

#[test]
fn compare_orders_by_code_point() {
    assert_eq!(compare_text("a", "b"), TextOrder::Less);
    assert_eq!(compare_text("b", "a"), TextOrder::Greater);
    assert_eq!(compare_text("ab", "ab"), TextOrder::Equal);
    assert_eq!(compare_text("ab", "abc"), TextOrder::Less);
    assert_eq!(compare_text("", ""), TextOrder::Equal);
}

#[test]
fn parse_unsigned_follows_from_str() {
    let digits: Vec<char> = "255".chars().collect();
    assert_eq!(parse_unsigned(&digits, 255), Some(255));
    let plus: Vec<char> = "+7".chars().collect();
    assert_eq!(parse_unsigned(&plus, 255), Some(7));
    let over: Vec<char> = "256".chars().collect();
    assert_eq!(parse_unsigned(&over, 255), None);
    let empty: Vec<char> = "".chars().collect();
    assert_eq!(parse_unsigned(&empty, 255), None);
    let sign_only: Vec<char> = "+".chars().collect();
    assert_eq!(parse_unsigned(&sign_only, 255), None);
    let minus: Vec<char> = "-1".chars().collect();
    assert_eq!(parse_unsigned(&minus, 255), None);
    for s in ["0", "17", "+3", "x", "1 ", "99999999999999999999"] {
        let c: Vec<char> = s.chars().collect();
        assert_eq!(parse_unsigned(&c, u64::MAX), s.parse::<u64>().ok());
    }
}

#[test]
fn trim_matches_str_trim() {
    for s in ["  5\n", "\t\t", "", "a b", " \u{3000}x\u{2028}"] {
        let t: String = trim_chars(s).into_iter().collect();
        assert_eq!(t, s.trim());
    }
}

#[test]
fn radix_matches_format() {
    for n in [0u64, 1, 2, 10, 255, 4096, u64::MAX] {
        assert_eq!(format_radix(n, 10, false), format!("{n}"));
        assert_eq!(format_radix(n, 2, false), format!("{n:b}"));
        assert_eq!(format_radix(n, 16, true), format!("{n:X}"));
        assert_eq!(format_radix(n, 16, false), format!("{n:x}"));
    }
}

#[test]
fn decimal_text_reads_back() {
    for n in [0u64, 9, 10, 255, 65535, u64::MAX] {
        let text: Vec<char> = format_radix(n, 10, false).chars().collect();
        assert_eq!(parse_unsigned(&text, u64::MAX), Some(n));
    }
}

#[test]
fn text_building_blocks() {
    let c = chars_of("héllo_wörld");
    assert_eq!(c.len(), 11);
    assert_eq!(string_from_chars(&c), "héllo_wörld");
    assert_eq!(find_char(&c, '_', 0), 5);
    assert_eq!(find_char(&c, '_', 6), 11);
    assert_eq!(find_char(&c, 'z', 0), 11);
    assert_eq!(string_from_range(&c, 6, 11), "wörld");
    assert_eq!(string_from_range(&c, 3, 3), "");
    assert_eq!(concat_str("ab", "cd"), "abcd");
    assert!(text_eq("é", "é"));
    assert!(!text_eq("e", "é"));
    assert!(char_lt('a', 'b'));
    assert!(!char_lt('b', 'b'));
    assert_eq!(digit_to_char(11, true), 'B');
    assert_eq!(digit_to_char(11, false), 'b');
    assert_eq!(digit_to_char(7, false), '7');
}

#[test]
fn whitespace_is_what_std_says() {
    for c in (0u32..=0x10ffff).filter_map(char::from_u32) {
        let t = trim_chars(&c.to_string());
        assert_eq!(t.is_empty(), c.is_whitespace(), "{:?}", c);
    }
}
