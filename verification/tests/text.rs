use civfun_gmr::text::{char_code, chars_of, decimal_string, parse_u64, push_decimal};

#[test]
fn writes_decimal_numbers() {
    assert_eq!(decimal_string(0), "0");
    assert_eq!(decimal_string(7), "7");
    assert_eq!(decimal_string(10), "10");
    assert_eq!(decimal_string(28), "28");
    assert_eq!(decimal_string(1_000_000), "1000000");
    assert_eq!(decimal_string(u64::MAX), "18446744073709551615");
    let mut s = String::from("turn ");
    push_decimal(&mut s, 407);
    push_decimal(&mut s, 0);
    assert_eq!(s, "turn 4070");
}

#[test]
fn reads_decimal_numbers() {
    assert_eq!(parse_u64("0"), Some(0));
    assert_eq!(parse_u64("0028"), Some(28));
    assert_eq!(parse_u64("76561198000000000"), Some(76561198000000000));
    assert_eq!(parse_u64("18446744073709551615"), Some(u64::MAX));
    assert_eq!(parse_u64("+5"), Some(5));
    assert_eq!(parse_u64("+0"), Some(0));
}

#[test]
fn what_is_no_number_reads_as_none() {
    assert_eq!(parse_u64(""), None);
    assert_eq!(parse_u64("+"), None);
    assert_eq!(parse_u64("-5"), None);
    assert_eq!(parse_u64("++5"), None);
    assert_eq!(parse_u64("5+"), None);
    assert_eq!(parse_u64(" 5"), None);
    assert_eq!(parse_u64("5 "), None);
    assert_eq!(parse_u64("12a"), None);
    assert_eq!(parse_u64("1_000"), None);
    assert_eq!(parse_u64("null"), None);
    // Digits of another script.
    assert_eq!(parse_u64("٠٠٢٨"), None);
    assert_eq!(parse_u64("18446744073709551616"), None);
    assert_eq!(parse_u64("99999999999999999999999"), None);
    assert_eq!(parse_u64("184467440737095516150"), None);
}

#[test]
fn numbers_read_back_as_written() {
    for n in [0u64, 1, 9, 10, 99, 100, 4_294_967_295, 4_294_967_296, u64::MAX - 1, u64::MAX] {
        assert_eq!(parse_u64(&decimal_string(n)), Some(n));
    }
}

#[test]
fn takes_strings_apart() {
    assert_eq!(chars_of("aé→z"), vec!['a', 'é', '→', 'z']);
    assert_eq!(chars_of(""), Vec::<char>::new());
    assert_eq!(char_code('0'), 0x30);
    assert_eq!(char_code('é'), 0xe9);
}
