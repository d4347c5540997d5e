use fbarcalc::money::find_mark;
use fbarcalc::money::parse_decimal;
use fbarcalc::money::read_digits;
use fbarcalc::money::read_exponent;
use fbarcalc::money::Digits;
use fbarcalc::money::EXPONENT_LIMIT;
use fbarcalc::money::power_of_ten;
use fbarcalc::money::Decimal;
use fbarcalc::money::Money;

fn decimal(mantissa: i64, scale: u32) -> Option<Decimal> {
    Some(Decimal { mantissa, scale })
}

#[test]
fn decimals_are_read_digit_by_digit() {
    assert_eq!(parse_decimal("12.345"), decimal(12345, 3));
    assert_eq!(parse_decimal("12.34"), decimal(1234, 2));
    assert_eq!(parse_decimal("7"), decimal(7, 0));
    assert_eq!(parse_decimal("007"), decimal(7, 0));
    assert_eq!(parse_decimal(".5"), decimal(5, 1));
    assert_eq!(parse_decimal("5."), decimal(5, 0));
    assert_eq!(parse_decimal("0.00"), decimal(0, 2));
}

#[test]
fn decimals_may_carry_a_sign() {
    assert_eq!(parse_decimal("-0.005"), decimal(-5, 3));
    assert_eq!(parse_decimal("+1.50"), decimal(150, 2));
    assert_eq!(parse_decimal("-50.00"), decimal(-5000, 2));
    assert_eq!(parse_decimal("-0"), decimal(0, 0));
}

#[test]
fn other_texts_are_no_decimals() {
    for text in ["", "-", "+", ".", "-.", "1.2.3", "1,5", " 1", "1 ", "1e5", "abc", "--1", "1-", "€1", "1.5x", "inf", "NaN"] {
        assert_eq!(parse_decimal(text), None, "{:?}", text);
    }
}

#[test]
fn decimals_are_limited_by_their_mantissa() {
    assert_eq!(parse_decimal("9223372036854775807"), decimal(i64::MAX, 0));
    assert_eq!(parse_decimal("-9223372036854775807"), decimal(-i64::MAX, 0));
    assert_eq!(parse_decimal("92233720368547758.07"), decimal(i64::MAX, 2));
    assert_eq!(parse_decimal("9223372036854775808"), None);
    assert_eq!(parse_decimal("-9223372036854775808"), None);
    assert_eq!(parse_decimal("0.10000000000000000000"), None);
    assert_eq!(parse_decimal("0.0000000000000000001"), decimal(1, 19));
}

#[test]
fn amounts_are_written_with_two_digits() {
    assert_eq!(Money { cents: 10500 }.to_text(), "105.00");
    assert_eq!(Money { cents: 11340 }.to_text(), "113.40");
    assert_eq!(Money { cents: 0 }.to_text(), "0.00");
    assert_eq!(Money { cents: 5 }.to_text(), "0.05");
    assert_eq!(Money { cents: -1 }.to_text(), "-0.01");
    assert_eq!(Money { cents: -123456 }.to_text(), "-1234.56");
    assert_eq!(
        Money { cents: i128::MIN }.to_text(),
        "-1701411834604692317316873037158841057.28"
    );
    assert_eq!(
        Money { cents: i128::MAX }.to_text(),
        "1701411834604692317316873037158841057.27"
    );
}

#[test]
fn amounts_are_shown_with_a_symbol() {
    assert_eq!(Money { cents: 10500 }.display("€"), "€105.00");
    assert_eq!(Money { cents: -250 }.display("$"), "$-2.50");
    assert_eq!(Money { cents: 1 }.display(""), "0.01");
}

#[test]
fn powers_of_ten_up_to_the_largest_that_fits() {
    assert_eq!(power_of_ten(0), Some(1));
    assert_eq!(power_of_ten(2), Some(100));
    assert_eq!(power_of_ten(19), Some(10_000_000_000_000_000_000));
    assert_eq!(power_of_ten(20), None);
    assert_eq!(power_of_ten(u32::MAX), None);
}

fn digits(negative: bool, magnitude: u64, fraction_len: usize) -> Option<Digits> {
    Some(Digits { negative, magnitude, fraction_len })
}

#[test]
fn digits_are_read_without_their_point() {
    assert_eq!(read_digits("12.345"), digits(false, 12345, 3));
    assert_eq!(read_digits("-0.005"), digits(true, 5, 3));
    assert_eq!(read_digits("+7"), digits(false, 7, 0));
    assert_eq!(read_digits("-0"), digits(true, 0, 0));
    assert_eq!(read_digits(".5"), digits(false, 5, 1));
    assert_eq!(read_digits("18446744073709551615"), digits(false, u64::MAX, 0));
    assert_eq!(read_digits("1844674407370955161.5"), digits(false, u64::MAX, 1));
    assert_eq!(read_digits("18446744073709551616"), None);
    assert_eq!(read_digits("0.00000000000000000000000000001"), digits(false, 1, 29));
    for text in ["", "-", ".", "1e5", "1.2.3", "a"] {
        assert_eq!(read_digits(text), None, "{:?}", text);
    }
}

#[test]
fn the_exponent_mark_is_the_first_e() {
    assert_eq!(find_mark("1e5"), 1);
    assert_eq!(find_mark("1.5E-7"), 3);
    assert_eq!(find_mark("12.5"), 4);
    assert_eq!(find_mark(""), 0);
    assert_eq!(find_mark("e"), 0);
    assert_eq!(find_mark("1e5e6"), 1);
    assert_eq!(find_mark("€1e5"), 2);
}

#[test]
fn exponents_are_whole_numbers() {
    assert_eq!(read_exponent("5"), Some(5));
    assert_eq!(read_exponent("-7"), Some(-7));
    assert_eq!(read_exponent("+16"), Some(16));
    assert_eq!(read_exponent("007"), Some(7));
    assert_eq!(read_exponent("-0"), Some(0));
    for text in ["", "-", "+", "1.5", "1e5", " 1", "1 ", "--1", "a"] {
        assert_eq!(read_exponent(text), None, "{:?}", text);
    }
}

#[test]
fn exponents_are_held_within_their_limit() {
    assert_eq!(EXPONENT_LIMIT, 10_000_000_000_000_000_000_000_000);
    assert_eq!(read_exponent("10000000000000000000000000"), Some(EXPONENT_LIMIT));
    assert_eq!(read_exponent("9999999999999999999999999"), Some(EXPONENT_LIMIT - 1));
    assert_eq!(read_exponent("10000000000000000000000001"), Some(EXPONENT_LIMIT));
    assert_eq!(read_exponent("-10000000000000000000000001"), Some(-EXPONENT_LIMIT));
    assert_eq!(
        read_exponent("99999999999999999999999999999999999999999999999999999999999999"),
        Some(EXPONENT_LIMIT)
    );
}
