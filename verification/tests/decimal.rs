use fulfillment::decimal::{chars_of, parse_i32, parse_i32_within};

#[test]
fn parse_i32_reads_plain_numbers() {
    assert_eq!(parse_i32("0"), Some(0));
    assert_eq!(parse_i32("7"), Some(7));
    assert_eq!(parse_i32("42"), Some(42));
    assert_eq!(parse_i32("2147483647"), Some(i32::MAX));
}

#[test]
fn parse_i32_reads_signs() {
    assert_eq!(parse_i32("-5"), Some(-5));
    assert_eq!(parse_i32("+5"), Some(5));
    assert_eq!(parse_i32("-0"), Some(0));
    assert_eq!(parse_i32("-2147483648"), Some(i32::MIN));
}

#[test]
fn parse_i32_reads_leading_zeros() {
    assert_eq!(parse_i32("007"), Some(7));
    assert_eq!(parse_i32("0000000000000000000000012"), Some(12));
    assert_eq!(parse_i32("-000000000002147483648"), Some(i32::MIN));
}

#[test]
fn parse_i32_refuses_what_is_no_number() {
    assert_eq!(parse_i32(""), None);
    assert_eq!(parse_i32("+"), None);
    assert_eq!(parse_i32("-"), None);
    assert_eq!(parse_i32("--5"), None);
    assert_eq!(parse_i32("+-5"), None);
    assert_eq!(parse_i32("5-"), None);
    assert_eq!(parse_i32(" 5"), None);
    assert_eq!(parse_i32("5 "), None);
    assert_eq!(parse_i32("1_000"), None);
    assert_eq!(parse_i32("12a"), None);
    assert_eq!(parse_i32("1.5"), None);
    assert_eq!(parse_i32("٣"), None);
}

#[test]
fn parse_i32_refuses_what_does_not_fit() {
    assert_eq!(parse_i32("2147483648"), None);
    assert_eq!(parse_i32("-2147483649"), None);
    assert_eq!(parse_i32("99999999999999999999999999999"), None);
    assert_eq!(parse_i32("-99999999999999999999999999999"), None);
}

#[test]
fn parse_i32_agrees_with_std() {
    let samples = [
        "", "0", "-0", "+0", "1", "-1", "+1", "10", "0010", "2147483647", "2147483648",
        "-2147483648", "-2147483649", "abc", "1a", "a1", "+", "-", "++1", "1+", " 1", "1 ",
        "1,2", "٣", "１２", "0x10", "1e3",
    ];
    for sample in samples {
        assert_eq!(parse_i32(sample), sample.parse::<i32>().ok(), "{:?}", sample);
    }
}

#[test]
fn parse_i32_within_reads_a_part() {
    let chars = chars_of("12,-34,x");
    assert_eq!(parse_i32_within(&chars, 0, 2), Some(12));
    assert_eq!(parse_i32_within(&chars, 3, 6), Some(-34));
    assert_eq!(parse_i32_within(&chars, 4, 6), Some(34));
    assert_eq!(parse_i32_within(&chars, 7, 8), None);
    assert_eq!(parse_i32_within(&chars, 2, 2), None);
    assert_eq!(parse_i32_within(&chars, 0, 3), None);
}

#[test]
fn chars_of_gives_every_character() {
    assert_eq!(chars_of("a,é"), vec!['a', ',', 'é']);
    assert_eq!(chars_of(""), Vec::<char>::new());
}
