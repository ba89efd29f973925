use middle_sock::text::{
    char_is_whitespace, chars_of, parse_i32, parse_u32, remove_char, same_text, split_line,
    split_words, string_of,
};

const NUMERALS: [&str; 34] = [
    "", "0", "1", "42", "+7", "+", "-", "-1", "-0", "+0", "4294967295", "4294967296", "2147483647",
    "2147483648", "-2147483648", "-2147483649", "12a", "a12", " 1", "1 ", "1\t", "0x10", "00012",
    "99999999999999999999", "-99999999999999999999", "++1", "--1", "+-1", "1.5", "\u{663}", "0A0A",
    "000000000000000000000000000007", "+4294967295", "-00000000002147483648",
];

#[test]
fn parse_u32_agrees_with_std() {
    for text in NUMERALS {
        assert_eq!(parse_u32(text), text.parse::<u32>().ok(), "{:?}", text);
    }
}

#[test]
fn parse_i32_agrees_with_std() {
    for text in NUMERALS {
        assert_eq!(parse_i32(text), text.parse::<i32>().ok(), "{:?}", text);
    }
}

#[test]
fn parse_u32_values() {
    assert_eq!(parse_u32("2570"), Some(2570));
    assert_eq!(parse_u32("4294967295"), Some(u32::MAX));
    assert_eq!(parse_u32("4294967296"), None);
    assert_eq!(parse_u32("-5"), None);
    assert_eq!(parse_u32(""), None);
}

#[test]
fn parse_i32_values() {
    assert_eq!(parse_i32("-2147483648"), Some(i32::MIN));
    assert_eq!(parse_i32("2147483647"), Some(i32::MAX));
    assert_eq!(parse_i32("2147483648"), None);
    assert_eq!(parse_i32("-12"), Some(-12));
    assert_eq!(parse_i32("+12"), Some(12));
}

#[test]
fn split_line_agrees_with_std() {
    for line in ["", "a", "a\tb", "\t", "a\t", "\ta", "a\t\tb", "eth0\t0\t1\t2", "no tabs here", "\t\t\t"] {
        let expected: Vec<String> = line.split('\t').map(str::to_owned).collect();
        assert_eq!(split_line(line, '\t'), expected, "{:?}", line);
    }
}

#[test]
fn split_words_agrees_with_std() {
    for text in ["", " ", "ls", "ls -l", "  ls   -l\t/tmp \n", "a\u{a0}b", "a\u{2003}b c", "\u{3000}x", "tab\tsep", "a\u{200b}b"] {
        let expected: Vec<String> = text.split_whitespace().map(str::to_owned).collect();
        assert_eq!(split_words(text), expected, "{:?}", text);
    }
}

#[test]
fn whitespace_agrees_with_std() {
    for code in 0u32..0x3100 {
        if let Some(c) = char::from_u32(code) {
            assert_eq!(char_is_whitespace(c), c.is_whitespace(), "{:x}", code);
        }
    }
    assert!(!char_is_whitespace('\u{feff}'));
    assert!(!char_is_whitespace('\u{10ffff}'));
}

#[test]
fn remove_char_takes_every_occurrence() {
    assert_eq!(remove_char("'a' 'b c'", '\''), "a b c");
    assert_eq!(remove_char("''''", '\''), "");
    assert_eq!(remove_char("plain", '\''), "plain");
}

#[test]
fn chars_and_strings() {
    assert_eq!(chars_of("h\u{e9}!"), vec!['h', '\u{e9}', '!']);
    assert_eq!(string_of(&vec!['a', 'b', 'c', 'd'], 1, 3), "bc");
    assert_eq!(string_of(&vec!['a', 'b'], 2, 2), "");
    assert!(same_text("eth0", "eth0"));
    assert!(!same_text("eth0", "eth1"));
    assert!(!same_text("eth0", "eth"));
    assert!(same_text("", ""));
}
