use rpc::decimal::{parse_decimal, push_decimal, to_decimal};

#[test]
fn zero_is_written_as_one_digit() {
    assert_eq!(to_decimal(0), "0");
}

#[test]
fn numbers_are_written_without_padding() {
    assert_eq!(to_decimal(7), "7");
    assert_eq!(to_decimal(10), "10");
    assert_eq!(to_decimal(30), "30");
    assert_eq!(to_decimal(1_000_000), "1000000");
    assert_eq!(to_decimal(9_007_199_254_740_993), "9007199254740993");
}

#[test]
fn the_largest_number_is_written_in_full() {
    assert_eq!(to_decimal(u64::MAX), "18446744073709551615");
}

#[test]
fn push_decimal_appends_to_what_is_there() {
    let mut text = String::from("n = ");
    push_decimal(&mut text, 405);
    assert_eq!(text, "n = 405");
    push_decimal(&mut text, 0);
    assert_eq!(text, "n = 4050");
}

#[test]
fn digits_are_read_as_their_number() {
    assert_eq!(parse_decimal("0"), Some(0));
    assert_eq!(parse_decimal("5"), Some(5));
    assert_eq!(parse_decimal("30"), Some(30));
    assert_eq!(parse_decimal("123456789"), Some(123_456_789));
}

#[test]
fn leading_zeros_are_read() {
    assert_eq!(parse_decimal("007"), Some(7));
    assert_eq!(parse_decimal("000"), Some(0));
}

#[test]
fn one_plus_sign_is_allowed() {
    assert_eq!(parse_decimal("+5"), Some(5));
    assert_eq!(parse_decimal("+0012"), Some(12));
    assert_eq!(parse_decimal("++5"), None);
    assert_eq!(parse_decimal("5+"), None);
}

#[test]
fn text_without_digits_is_refused() {
    assert_eq!(parse_decimal(""), None);
    assert_eq!(parse_decimal("+"), None);
}

#[test]
fn anything_but_digits_is_refused() {
    assert_eq!(parse_decimal("-3"), None);
    assert_eq!(parse_decimal("1e5"), None);
    assert_eq!(parse_decimal("2.5"), None);
    assert_eq!(parse_decimal(" 7"), None);
    assert_eq!(parse_decimal("7 "), None);
    assert_eq!(parse_decimal("12a"), None);
    assert_eq!(parse_decimal("0x10"), None);
}

#[test]
fn digits_of_other_scripts_are_refused() {
    assert_eq!(parse_decimal("\u{0663}"), None);
    assert_eq!(parse_decimal("1\u{00e9}"), None);
    assert_eq!(parse_decimal("+\u{ff11}"), None);
}

#[test]
fn the_largest_number_is_read_and_the_next_is_refused() {
    assert_eq!(parse_decimal("18446744073709551615"), Some(u64::MAX));
    assert_eq!(parse_decimal("18446744073709551616"), None);
    assert_eq!(parse_decimal("18446744073709551620"), None);
    assert_eq!(parse_decimal("99999999999999999999"), None);
    assert_eq!(parse_decimal("184467440737095516150"), None);
    assert_eq!(parse_decimal("00018446744073709551615"), Some(u64::MAX));
}

#[test]
fn reading_agrees_with_the_standard_library() {
    let samples = [
        "", "+", "-", "0", "+0", "-0", "42", "+42", "-42", "4 2", "042", "4a", "a4", "١٢",
        "18446744073709551615", "18446744073709551616", "+18446744073709551615", "1_000", "٣",
    ];
    for text in samples {
        assert_eq!(parse_decimal(text), text.parse::<u64>().ok(), "for {:?}", text);
    }
}

#[test]
fn what_was_written_is_read_back() {
    for n in [0u64, 1, 9, 10, 11, 99, 100, 255, 256, 65_535, 4_294_967_296, u64::MAX - 1, u64::MAX] {
        assert_eq!(parse_decimal(&to_decimal(n)), Some(n));
    }
}

#[test]
fn writing_agrees_with_the_standard_library() {
    for n in [0u64, 3, 10, 19, 20, 101, 12_345, 999_999_999_999, u64::MAX] {
        assert_eq!(to_decimal(n), format!("{}", n));
    }
}
