use watch_party::number::{has_nonzero_digit, parse_millionths, parse_u64};
use watch_party::text::{
    decimal_text, duration_text, fixed_digits_text, hex_byte_text, position_text, trim,
};

#[test]
fn whole_numbers_read_as_the_standard_library_reads_them() {
    let texts = [
        "0", "7", "+7", "-7", "", "+", "007", "18446744073709551615", "18446744073709551616",
        "1e3", " 1", "1 ", "99999999999999999999", "+-1", "٣",
    ];
    for text in texts {
        assert_eq!(parse_u64(text), text.parse::<u64>().ok(), "{text:?}");
    }
}

#[test]
fn decimals_read_exactly() {
    assert_eq!(parse_millionths("2.3"), Some(2_300_000));
    assert_eq!(parse_millionths("7265.500001"), Some(7_265_500_001));
    assert_eq!(parse_millionths("-0.041708"), Some(-41_708));
    assert_eq!(parse_millionths(".5"), Some(500_000));
    assert_eq!(parse_millionths("5."), Some(5_000_000));
    assert_eq!(parse_millionths("1.25e1"), Some(12_500_000));
    assert_eq!(parse_millionths("12E-1"), Some(1_200_000));
    assert_eq!(parse_millionths("0.0000005"), Some(1));
    assert_eq!(parse_millionths("0.00000049"), Some(0));
}

#[test]
fn decimals_that_are_too_large_are_capped() {
    assert_eq!(parse_millionths("1e300"), Some(i64::MAX));
    assert_eq!(parse_millionths("-inf"), Some(-i64::MAX));
    assert_eq!(parse_millionths("Infinity"), Some(i64::MAX));
}

#[test]
fn what_is_a_decimal_the_standard_library_decides_alike() {
    let texts = [
        "", ".", "-", "+", "e5", "1e", "1e+", "1.2.3", "N/A", "0x10", "1_000", " 1", "1 ", "--1",
        "1e5", "1E+05", "+.5", "-5.", ".e1", "inf", "INFINITY", "+inf", "infin", "1.e1", "00.10",
    ];
    for text in texts {
        let std = text.parse::<f64>();
        assert_eq!(parse_millionths(text).is_some(), std.is_ok(), "{text:?}");
        if let (Some(us), Ok(value)) = (parse_millionths(text), std) {
            if value.is_finite() {
                assert_eq!(us, (value * 1e6).round() as i64, "{text:?}");
            }
        }
    }
    assert_eq!(parse_millionths("nan"), None);
}

#[test]
fn written_numbers_read_back() {
    for n in [0, 9, 10, 1_234_567, u64::MAX] {
        assert_eq!(parse_u64(&decimal_text(n)), Some(n));
    }
    for us in [0, 1, -1, 999_999, 1_000_000, -7_265_500_001, i64::MAX, -i64::MAX] {
        assert_eq!(parse_millionths(&position_text(us)), Some(us));
    }
}

#[test]
fn written_numbers() {
    assert_eq!(decimal_text(0), "0");
    assert_eq!(decimal_text(u64::MAX), "18446744073709551615");
    assert_eq!(fixed_digits_text(7, 3), "007");
    assert_eq!(fixed_digits_text(12_345, 2), "45");
    assert_eq!(position_text(2_300_000), "2.300000");
    assert_eq!(position_text(-1), "-0.000001");
    assert_eq!(position_text(i64::MIN), "-9223372036854.775808");
    assert_eq!(duration_text(u64::MAX), "18446744073709.551615");
    assert_eq!(hex_byte_text(0xa9), "a9");
}

#[test]
fn nonzero_digits() {
    assert!(has_nonzero_digit("0.0001"));
    assert!(has_nonzero_digit("1e-400"));
    assert!(!has_nonzero_digit("0.000e9"));
    assert!(!has_nonzero_digit("0"));
    assert!(!has_nonzero_digit(""));
}

#[test]
fn trimming_is_that_of_the_standard_library() {
    for c in (0..=0x3100).chain([0xfeff, 0x1_f600]).filter_map(char::from_u32) {
        let text = format!("{c}{c}a {c}b{c}");
        assert_eq!(trim(&text), text.trim(), "{text:?}");
    }
    assert_eq!(trim(" \t\r\n "), "");
    assert_eq!(trim(""), "");
}
