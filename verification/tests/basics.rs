//! Texts, numbers, instants and tables.

use homeward::decimal::{is_number, round_number};
use homeward::table::Table;
use homeward::text::{
    capitalize, drop_suffix, join, less, lower, pad, pad_left, parse_up_to, prefix, quote, repeat,
    replace_all, replace_first, split, upper, words, write_decimal, write_signed,
};
use homeward::time::{elapsed_seconds, Timestamp};
use homeward::web::{build, pair};

#[test]
fn texts_are_changed_character_by_character() {
    assert_eq!(replace_first("a_b_c", '_', ' '), "a b_c");
    assert_eq!(replace_all("a_b_c", '_', ' '), "a b c");
    assert_eq!(drop_suffix("2024Z", 'Z'), "2024");
    assert_eq!(drop_suffix("2024ZZ", 'Z'), "2024");
    assert_eq!(prefix("éab", 2), "éa");
    assert_eq!(capitalize("austin"), "Austin");
    assert_eq!(upper("Straße"), "STRASSE");
    assert_eq!(lower("ABC-Ä"), "abc-ä");
    assert_eq!(quote("a\"b\\c\n"), "\"a\\\"b\\\\c\\n\"");
}

#[test]
fn splitting_and_joining_are_inverse() {
    for text in ["", ",", "a", "a,b", ",a,,b,"] {
        assert_eq!(join(&split(text, ','), ","), text);
    }
    assert_eq!(split("a,b", ',').len(), 2);
    assert_eq!(words("  a \t b\n"), ["a", "b"]);
}

#[test]
fn numbers_are_written_and_read() {
    for n in [0, 9, 10, 12_345, u64::MAX] {
        assert_eq!(write_decimal(n), n.to_string());
        assert_eq!(parse_up_to(&write_decimal(n), u64::MAX), Some(n));
    }
    assert_eq!(write_signed(i64::MIN), i64::MIN.to_string());
    assert_eq!(parse_up_to("+7", 9), Some(7));
    assert_eq!(parse_up_to("10", 9), None);
    assert_eq!(parse_up_to("", 9), None);
    assert_eq!(parse_up_to("-1", 9), None);
}

#[test]
fn columns_are_padded() {
    assert_eq!(pad("ab", 4), format!("{:<4}", "ab"));
    assert_eq!(pad_left("ab", 4), format!("{:>4}", "ab"));
    assert_eq!(pad("abcde", 4), "abcde");
    assert_eq!(repeat('-', 3), "---");
}

#[test]
fn texts_are_ordered_as_strings() {
    let texts = ["", "B", "a", "aa", "b", "é"];
    for a in texts {
        for b in texts {
            assert_eq!(less(a, b), a < b);
        }
    }
}

#[test]
fn decimals_are_rounded() {
    assert_eq!(round_number("30.2672", 2), Some(3027));
    assert_eq!(round_number("-97.7431", 2), Some(-9774));
    assert_eq!(round_number("0.005", 2), Some(1));
    assert_eq!(round_number("-0.005", 2), Some(-1));
    assert_eq!(round_number("1.5e1", 0), Some(15));
    assert_eq!(round_number("25e-1", 0), Some(3));
    assert_eq!(round_number("nan", 2), None);
    assert_eq!(round_number("inf", 2), None);
    assert_eq!(round_number("1e40", 0), None);
    for text in ["1", "+1", "-.5", "1.", "1e5", "1E-5", "inf", "-Infinity", "NaN"] {
        assert!(is_number(text), "{text}");
        assert!(text.parse::<f64>().is_ok());
    }
    for text in ["", ".", "+", "1e", "1 ", "0x1", "--1", "e5", "1.2.3"] {
        assert!(!is_number(text), "{text}");
        assert!(text.parse::<f64>().is_err());
    }
}

#[test]
fn instants_are_compared() {
    let early = Timestamp::new(10, 999_999_999).expect("instant");
    let late = Timestamp::new(12, 0).expect("instant");
    assert_eq!(early.later_of(late), late);
    assert_eq!(late.later_of(early), late);
    assert_eq!(elapsed_seconds(&early, &late), 1);
    assert_eq!(elapsed_seconds(&late, &early), -1);
    assert_eq!((early.seconds(), early.subsec_nanos()), (10, 999_999_999));
    assert_eq!(Timestamp::new(i64::MAX, 0), None);
    assert_eq!(Timestamp::new(0, 2_000_000_000), None);
}

#[test]
fn tables_hold_one_value_per_name() {
    let mut table: Table<u8> = Table::new();
    table.insert("a".to_owned(), 1);
    table.insert("b".to_owned(), 2);
    table.insert("a".to_owned(), 3);
    assert_eq!(table.get("a"), Some(&3));
    table.remove("b");
    assert_eq!(table.get("b"), None);
    assert_eq!(table.names(), ["a"]);
}

#[test]
fn addresses_are_built_with_escapes() {
    let url = build(
        "https://h.org/x",
        &vec![pair("$where", "a > 'b'".to_owned()), pair("n", "1".to_owned())],
    )
    .expect("url");
    assert_eq!(url.as_str(), "https://h.org/x?%24where=a+%3E+%27b%27&n=1");
    assert_eq!(
        build("not a url", &vec![]),
        Err(url::Url::parse("not a url").unwrap_err().to_string())
    );
}
