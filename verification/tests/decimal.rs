use quiz_lookup::decimal::parse_index;

#[test]
fn plain_numbers_are_read() {
    assert_eq!(parse_index("0"), Some(0));
    assert_eq!(parse_index("7"), Some(7));
    assert_eq!(parse_index("12"), Some(12));
    assert_eq!(parse_index("4096"), Some(4096));
}

#[test]
fn a_leading_plus_and_leading_zeros_are_accepted() {
    assert_eq!(parse_index("+7"), Some(7));
    assert_eq!(parse_index("007"), Some(7));
    assert_eq!(parse_index("+000"), Some(0));
    assert_eq!(parse_index("0000000000000000000000000000000000000012"), Some(12));
}

#[test]
fn anything_else_is_refused() {
    for bad in [
        "", "+", "-", "-3", "++1", "1+", "1 ", " 1", "1_000", "0x10", "1.5", "abc", "1a", "a1",
        "\u{0661}", "1\u{00e9}", "\u{00e9}",
    ] {
        assert_eq!(parse_index(bad), None, "text {:?}", bad);
    }
}

#[test]
fn numbers_beyond_usize_are_refused() {
    let max = usize::MAX.to_string();
    assert_eq!(parse_index(&max), Some(usize::MAX));
    assert_eq!(parse_index(&format!("+{}", max)), Some(usize::MAX));
    let mut beyond = max.clone();
    let last = beyond.pop().unwrap();
    beyond.push(char::from_digit(last.to_digit(10).unwrap() + 1, 10).unwrap());
    assert_eq!(parse_index(&beyond), None);
    assert_eq!(parse_index(&format!("{}0", max)), None);
    assert_eq!(parse_index("99999999999999999999999999999999999999999"), None);
}

#[test]
fn reading_agrees_with_the_standard_parser() {
    for text in [
        "", "+", "-", "0", "1", "+1", "-1", "-0", "10", "010", "4", "5", " 4", "4 ", "४", "1e3",
        "18446744073709551615", "18446744073709551616", "4294967295", "4294967296", "+-1", "٣",
    ] {
        assert_eq!(parse_index(text), text.parse::<usize>().ok(), "text {:?}", text);
    }
}
