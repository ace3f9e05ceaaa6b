use pglance::numbers::wrap_i64;
use pglance::order::{compare_lists, compare_texts, same_lists, sort_by_key, Order};
use pglance::text::{
    chars_of, decimal_text, drop_char, has_char, join_texts, lower_text, parse_i64,
    signed_decimal_text, split_words, starts_with, text_of, trim,
};

fn texts(parts: &[&str]) -> Vec<String> {
    parts.iter().map(|part| part.to_string()).collect()
}

#[test]
fn numbers_are_read() {
    assert_eq!(parse_i64("1024"), Some(1024));
    assert_eq!(parse_i64("+7"), Some(7));
    assert_eq!(parse_i64("-17"), Some(-17));
    assert_eq!(parse_i64("0000000000000000000000000005"), Some(5));
    assert_eq!(parse_i64("9223372036854775807"), Some(i64::MAX));
    assert_eq!(parse_i64("-9223372036854775808"), Some(i64::MIN));
    assert_eq!(parse_i64("9223372036854775808"), None);
    assert_eq!(parse_i64("-9223372036854775809"), None);
    assert_eq!(parse_i64("99999999999999999999999999999999999999999999"), None);
}

#[test]
fn what_is_no_number_is_not_read() {
    for wrong in ["", "+", "-", "--1", "+-1", " 1", "1 ", "1.0", "1e3", "ten", "١"] {
        assert_eq!(parse_i64(wrong), None, "{}", wrong);
        assert!(wrong.parse::<i64>().is_err());
    }
}

#[test]
fn written_numbers_are_read_back() {
    for n in [0, 1, -1, 9, 10, -10, 12345, i64::MAX, i64::MIN] {
        let written = signed_decimal_text(n as i128);
        assert_eq!(written, n.to_string());
        assert_eq!(parse_i64(&written), Some(n));
    }
    assert_eq!(decimal_text(u128::MAX), u128::MAX.to_string());
    assert_eq!(signed_decimal_text(i128::MIN), i128::MIN.to_string());
}

#[test]
fn only_ascii_letters_are_lowered() {
    assert_eq!(lower_text("Straße ÄB-Zz"), "straße Äb-zz");
}

#[test]
fn characters_are_dropped_and_found() {
    assert_eq!(drop_char("a\"b\"", '"'), "ab");
    assert!(has_char("a\0b", '\0'));
    assert!(!has_char("ab", '\0'));
}

#[test]
fn texts_start_with_their_prefixes() {
    assert!(starts_with("aws_region", "aws_"));
    assert!(starts_with("aws_", "aws_"));
    assert!(starts_with("x", ""));
    assert!(!starts_with("aws", "aws_"));
}

#[test]
fn words_are_split_at_white_space() {
    let chars = chars_of("  double \t precision\u{3000}\n");
    assert_eq!(split_words(&chars), texts(&["double", "precision"]));
    assert_eq!(split_words(&chars_of(" \n ")), texts(&[]));
}

#[test]
fn white_space_is_trimmed() {
    let chars = chars_of(" \u{a0}a b\r\n");
    assert_eq!(text_of(&trim(&chars)), "a b");
}

#[test]
fn texts_are_joined() {
    assert_eq!(join_texts(&texts(&["a", "b", ""]), ", "), "a, b, ");
    assert_eq!(join_texts(&texts(&["a"]), ", "), "a");
    assert_eq!(join_texts(&[], ", "), "");
}

#[test]
fn order_is_that_of_the_standard_library() {
    let samples = ["", "a", "aa", "b", "B", "ä", "\u{10ffff}", "\u{e000}"];
    for a in samples {
        for b in samples {
            let expected = match a.cmp(b) {
                std::cmp::Ordering::Less => Order::Less,
                std::cmp::Ordering::Equal => Order::Equal,
                std::cmp::Ordering::Greater => Order::Greater,
            };
            assert_eq!(compare_texts(a, b), expected);
        }
    }
    assert_eq!(compare_lists(&texts(&["a"]), &texts(&["a", "b"])), Order::Less);
    assert_eq!(compare_lists(&texts(&["b"]), &texts(&["a", "b"])), Order::Greater);
    assert!(same_lists(&texts(&["a", "b"]), &texts(&["a", "b"])));
    assert!(!same_lists(&texts(&["ab"]), &texts(&["a", "b"])));
}

#[test]
fn sorting_keeps_the_order_of_equal_keys() {
    let items: Vec<(Vec<String>, u32)> = vec![
        (texts(&["b"]), 1),
        (texts(&["a"]), 2),
        (texts(&["b"]), 3),
        (texts(&["a"]), 4),
    ];
    let sorted: Vec<u32> = sort_by_key(items).into_iter().map(|item| item.1).collect();
    assert_eq!(sorted, vec![2, 4, 1, 3]);
}

#[test]
fn large_numbers_wrap() {
    assert_eq!(wrap_i64(0), 0);
    assert_eq!(wrap_i64(i64::MAX as u64), i64::MAX);
    assert_eq!(wrap_i64(i64::MAX as u64 + 1), i64::MIN);
    assert_eq!(wrap_i64(u64::MAX), -1);
}
