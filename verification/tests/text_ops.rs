use paper_unfurl::dates::{citation_timestamp, year_timestamp, DateOrder};
use paper_unfurl::numbers::{parse_i32, parse_u32};
use paper_unfurl::text::{join, replace_char, replace_first, split, text_after_last, text_before_first, trim};

#[test]
fn split_like_str_split() {
    assert_eq!(split("a, b, c", ", "), vec!["a", "b", "c"]);
    assert_eq!(split("", "/"), vec![""]);
    assert_eq!(split("/a/", "/"), vec!["", "a", ""]);
    assert_eq!(split("aaa", "aa"), vec!["", "a"]);
}

#[test]
fn join_like_slice_join() {
    let parts = vec!["x".to_string(), "y".to_string(), "z".to_string()];
    assert_eq!(join(&parts, " | "), "x | y | z");
    assert_eq!(join(&Vec::new(), ", "), "");
}

#[test]
fn replace_like_str() {
    assert_eq!(replace_first("a/pdf/b/pdf/", "/pdf/", "/abs/"), "a/abs/b/pdf/");
    assert_eq!(replace_first("abc", "x", "y"), "abc");
    assert_eq!(replace_char("a\nb\n", '\n', ' '), "a b ");
}

#[test]
fn trim_like_str_trim() {
    assert_eq!(trim("  \n\t a b \u{3000}"), "a b");
    assert_eq!(trim(" \u{2028} "), "");
    assert_eq!(trim("x"), "x");
}

#[test]
fn segments() {
    assert_eq!(text_after_last("a/b/c.pdf", '/'), "c.pdf");
    assert_eq!(text_after_last("abc", '/'), "abc");
    assert_eq!(text_before_first("P18-1001.pdf", '.'), "P18-1001");
    assert_eq!(text_before_first("3730-x-y", '-'), "3730");
}

#[test]
fn numbers_like_str_parse() {
    assert_eq!(parse_i32("2018"), Some(2018));
    assert_eq!(parse_i32("-12"), Some(-12));
    assert_eq!(parse_i32("+7"), Some(7));
    assert_eq!(parse_i32("-2147483648"), Some(i32::MIN));
    assert_eq!(parse_i32("2147483648"), None);
    assert_eq!(parse_i32(""), None);
    assert_eq!(parse_i32("-"), None);
    assert_eq!(parse_i32("1a"), None);
    assert_eq!(parse_u32("03"), Some(3));
    assert_eq!(parse_u32("4294967295"), Some(u32::MAX));
    assert_eq!(parse_u32("4294967296"), None);
    assert_eq!(parse_u32("-0"), None);
    for s in ["0", "+1", "-5", "99999999999", "x", " 1"] {
        assert_eq!(parse_i32(s), s.parse::<i32>().ok());
        assert_eq!(parse_u32(s), s.parse::<u32>().ok());
    }
}

#[test]
fn dates() {
    assert_eq!(citation_timestamp("2018/03/18", DateOrder::YearMonthDay, 5), Some(1521331200));
    assert_eq!(citation_timestamp("05/27/2003", DateOrder::MonthDayYear, 5), Some(1053993600));
    assert_eq!(citation_timestamp("2018", DateOrder::YearMonthDay, 5), Some(5));
    assert_eq!(citation_timestamp("2018/02/30", DateOrder::YearMonthDay, 5), None);
    assert_eq!(citation_timestamp("2018/0/1", DateOrder::YearMonthDay, 5), None);
    assert_eq!(year_timestamp("2009"), Some(1230768000));
    assert_eq!(year_timestamp("MMIX"), None);
}

#[test]
fn whitespace_like_char_is_whitespace() {
    for u in 0u32..0x3100 {
        if let Some(c) = char::from_u32(u) {
            assert_eq!(paper_unfurl::text::is_whitespace(c), c.is_whitespace(), "{:x}", u);
        }
    }
    for s in ["", " ", " a ", "\u{85}x\u{a0}", "\u{2009}y z\u{200a}"] {
        assert_eq!(trim(s), s.trim());
    }
}
