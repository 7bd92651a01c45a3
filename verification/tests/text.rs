use oneup::decimal::{parse_decimal, render_decimal};
use oneup::scan::{
    find_char, is_space_char, split_once_at, strip_prefix_of, trim_end_matches, trim_space,
    trim_start_matches,
};
use oneup::text::{glue, glue3, has_char, join_dotted, same_text, split_on, to_chars};

#[test]
fn split_keeps_empty_pieces() {
    assert_eq!(split_on("a.b.c", '.'), vec!["a", "b", "c"]);
    assert_eq!(split_on("a..b", '.'), vec!["a", "", "b"]);
    assert_eq!(split_on("", '.'), vec![""]);
    assert_eq!(split_on(".", '.'), vec!["", ""]);
    assert_eq!(split_on("a.", '.'), vec!["a", ""]);
    assert_eq!(split_on(".a", '.'), vec!["", "a"]);
    assert_eq!(split_on("no dots", '.'), vec!["no dots"]);
    assert_eq!(split_on("é.ü", '.'), vec!["é", "ü"]);
}

#[test]
fn split_agrees_with_std() {
    for text in ["", "26.2.0", "..", "a.b.", "1.2.3.4.5", "x"] {
        let expected: Vec<&str> = text.split('.').collect();
        assert_eq!(split_on(text, '.'), expected);
    }
}

#[test]
fn join_puts_dots_between() {
    let parts = |items: &[&str]| items.iter().map(|s| s.to_string()).collect::<Vec<String>>();
    assert_eq!(join_dotted(&parts(&["26", "2", "0"])), "26.2.0");
    assert_eq!(join_dotted(&parts(&["26"])), "26");
    assert_eq!(join_dotted(&parts(&[])), "");
    assert_eq!(join_dotted(&parts(&["", ""])), ".");
}

#[test]
fn texts_are_compared_and_searched() {
    assert!(same_text("abc", "abc"));
    assert!(!same_text("abc", "abd"));
    assert!(!same_text("abc", "ab"));
    assert!(same_text("", ""));
    assert!(has_char("YY-MM", '-'));
    assert!(!has_char("YY.MM", '-'));
    assert_eq!(to_chars("aé"), vec!['a', 'é']);
    assert_eq!(glue("a", "b"), "ab");
    assert_eq!(glue3("a", "", "c"), "ac");
}

#[test]
fn decimal_is_written_without_padding() {
    assert_eq!(render_decimal(0), "0");
    assert_eq!(render_decimal(7), "7");
    assert_eq!(render_decimal(10), "10");
    assert_eq!(render_decimal(2026), "2026");
    assert_eq!(render_decimal(u64::MAX), "18446744073709551615");
}

#[test]
fn decimal_is_read_as_std_reads_it() {
    assert_eq!(parse_decimal("0"), Some(0));
    assert_eq!(parse_decimal("26"), Some(26));
    assert_eq!(parse_decimal("007"), Some(7));
    assert_eq!(parse_decimal("+5"), Some(5));
    assert_eq!(parse_decimal("18446744073709551615"), Some(u64::MAX));
    assert_eq!(parse_decimal("18446744073709551616"), None);
    assert_eq!(parse_decimal("99999999999999999999999"), None);
    assert_eq!(parse_decimal(""), None);
    assert_eq!(parse_decimal("+"), None);
    assert_eq!(parse_decimal("-1"), None);
    assert_eq!(parse_decimal("-0"), None);
    assert_eq!(parse_decimal("++1"), None);
    assert_eq!(parse_decimal("1+"), None);
    assert_eq!(parse_decimal(" 1"), None);
    assert_eq!(parse_decimal("1 "), None);
    assert_eq!(parse_decimal("abc"), None);
    assert_eq!(parse_decimal("1a"), None);
    assert_eq!(parse_decimal("٣"), None);
    for text in ["0", "+0", "12", "", "+", "-", "1e3", "0x10", "184467440737095516150"] {
        assert_eq!(parse_decimal(text), text.parse::<u64>().ok());
    }
}

#[test]
fn decimal_round_trips() {
    for n in [0u64, 1, 9, 10, 99, 100, 12345, u64::MAX - 1, u64::MAX] {
        assert_eq!(parse_decimal(&render_decimal(n)), Some(n));
        assert_eq!(render_decimal(n), n.to_string());
    }
}

#[test]
fn ends_are_trimmed() {
    assert_eq!(trim_end_matches("a///", '/'), "a");
    assert_eq!(trim_end_matches("a/b/", '/'), "a/b");
    assert_eq!(trim_end_matches("///", '/'), "");
    assert_eq!(trim_end_matches("", '/'), "");
    assert_eq!(trim_start_matches("https://x", "https://"), "x");
    assert_eq!(trim_start_matches("https://https://x", "https://"), "x");
    assert_eq!(trim_start_matches("http://x", "https://"), "http://x");
    assert_eq!(trim_start_matches("x", ""), "x");
    assert_eq!(trim_start_matches("aaa", "a"), "");
    assert_eq!(trim_space("  a b \t\r\n"), "a b");
    assert_eq!(trim_space("\u{a0}\u{3000}x\u{2003}"), "x");
    assert_eq!(trim_space("   "), "");
    assert_eq!(trim_space(""), "");
    assert_eq!(trim_space("x"), "x");
}

#[test]
fn white_space_is_what_std_calls_so() {
    let mut code: u32 = 0;
    while code <= 0x3100 {
        if let Some(c) = char::from_u32(code) {
            assert_eq!(is_space_char(c), c.is_whitespace());
        }
        code += 1;
    }
    assert!(!is_space_char('\u{feff}'));
    assert!(!is_space_char('\u{200b}'));
}

#[test]
fn prefixes_and_first_occurrences() {
    assert_eq!(strip_prefix_of("${A}", "${"), Some("A}"));
    assert_eq!(strip_prefix_of("$A", "${"), None);
    assert_eq!(strip_prefix_of("abc", "abc"), Some(""));
    assert_eq!(find_char("a=b=c", '='), 1);
    assert_eq!(find_char("abc", '='), 3);
    assert_eq!(find_char("", '='), 0);
    assert_eq!(split_once_at("a=b=c", '='), Some(("a", "b=c")));
    assert_eq!(split_once_at("=b", '='), Some(("", "b")));
    assert_eq!(split_once_at("a=", '='), Some(("a", "")));
    assert_eq!(split_once_at("abc", '='), None);
}
