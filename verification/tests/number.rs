use palantir::number::{
    parse_i64, parse_u64, power_of_ten, push_decimal, push_fixed, push_padded, round_ratio,
};

fn chars(s: &str) -> Vec<char> {
    s.chars().collect()
}

fn decimal(n: u128) -> String {
    let mut w = String::new();
    push_decimal(&mut w, n);
    w
}

fn fixed(scaled: u128, places: u32) -> String {
    let mut w = String::new();
    push_fixed(&mut w, scaled, places);
    w
}

#[test]
fn parse_u64_reads_digits() {
    assert_eq!(parse_u64(&chars("0")), Some(0));
    assert_eq!(parse_u64(&chars("007")), Some(7));
    assert_eq!(parse_u64(&chars("1234567890")), Some(1234567890));
    assert_eq!(parse_u64(&chars("+5")), Some(5));
}

#[test]
fn parse_u64_knows_its_range() {
    assert_eq!(parse_u64(&chars("18446744073709551615")), Some(u64::MAX));
    assert_eq!(parse_u64(&chars("18446744073709551616")), None);
    assert_eq!(parse_u64(&chars("99999999999999999999999")), None);
    assert_eq!(parse_u64(&chars("000000000000000000000000000001")), Some(1));
}

#[test]
fn parse_u64_refuses_what_is_no_number() {
    for s in ["", "+", "-1", "-", "12a", "a12", " 1", "1 ", "1.5", "++1", "\u{663}", "1_000"] {
        assert_eq!(parse_u64(&chars(s)), None, "{:?}", s);
    }
}

#[test]
fn parse_u64_agrees_with_the_standard_library() {
    for s in ["0", "+0", "42", "-0", "", "+", "18446744073709551615", "18446744073709551616", "x"] {
        assert_eq!(parse_u64(&chars(s)), s.parse::<u64>().ok(), "{:?}", s);
    }
}

#[test]
fn parse_i64_reads_signs() {
    assert_eq!(parse_i64(&chars("45000")), Some(45000));
    assert_eq!(parse_i64(&chars("+45000")), Some(45000));
    assert_eq!(parse_i64(&chars("-45000")), Some(-45000));
    assert_eq!(parse_i64(&chars("-0")), Some(0));
}

#[test]
fn parse_i64_knows_its_range() {
    assert_eq!(parse_i64(&chars("9223372036854775807")), Some(i64::MAX));
    assert_eq!(parse_i64(&chars("9223372036854775808")), None);
    assert_eq!(parse_i64(&chars("-9223372036854775808")), Some(i64::MIN));
    assert_eq!(parse_i64(&chars("-9223372036854775809")), None);
}

#[test]
fn parse_i64_agrees_with_the_standard_library() {
    for s in ["", "-", "+", "--1", "-+1", "+-1", "1-", "-1", "0", "-9223372036854775808", "a"] {
        assert_eq!(parse_i64(&chars(s)), s.parse::<i64>().ok(), "{:?}", s);
    }
}

#[test]
fn decimal_has_no_leading_zeros() {
    assert_eq!(decimal(0), "0");
    assert_eq!(decimal(9), "9");
    assert_eq!(decimal(10), "10");
    assert_eq!(decimal(1000000), "1000000");
    assert_eq!(decimal(u64::MAX as u128), "18446744073709551615");
    assert_eq!(decimal(u128::MAX), "340282366920938463463374607431768211455");
}

#[test]
fn decimal_appends_to_what_is_there() {
    let mut w = String::from("x=");
    push_decimal(&mut w, 42);
    assert_eq!(w, "x=42");
}

#[test]
fn decimal_round_trips_through_the_parser() {
    for n in [0u64, 1, 9, 10, 99, 100, 12345, u64::MAX - 1, u64::MAX] {
        assert_eq!(parse_u64(&chars(&decimal(n as u128))), Some(n));
    }
}

#[test]
fn padded_keeps_the_last_digits() {
    let mut w = String::new();
    push_padded(&mut w, 5, 3);
    assert_eq!(w, "005");
    let mut w = String::new();
    push_padded(&mut w, 12345, 3);
    assert_eq!(w, "345");
    let mut w = String::new();
    push_padded(&mut w, 7, 0);
    assert_eq!(w, "");
}

#[test]
fn powers_of_ten() {
    assert_eq!(power_of_ten(0), 1);
    assert_eq!(power_of_ten(1), 10);
    assert_eq!(power_of_ten(3), 1000);
    assert_eq!(power_of_ten(18), 1_000_000_000_000_000_000);
}

#[test]
fn fixed_point_writes_all_fractional_digits() {
    assert_eq!(fixed(1234, 3), "1.234");
    assert_eq!(fixed(5, 3), "0.005");
    assert_eq!(fixed(1000, 3), "1.000");
    assert_eq!(fixed(0, 3), "0.000");
    assert_eq!(fixed(455, 1), "45.5");
    assert_eq!(fixed(0, 1), "0.0");
    assert_eq!(fixed(42, 0), "42.");
}

#[test]
fn ratios_round_to_the_nearest_unit() {
    assert_eq!(round_ratio(1, 3, 3), 333);
    assert_eq!(round_ratio(2, 3, 3), 667);
    assert_eq!(round_ratio(150, 200, 3), 750);
    assert_eq!(round_ratio(1_500_600, 1_000_000, 3), 1501);
    assert_eq!(round_ratio(1_500_499, 1_000_000, 3), 1500);
    assert_eq!(round_ratio(0, 7, 3), 0);
}

#[test]
fn ratios_round_a_tie_up() {
    assert_eq!(round_ratio(1, 2, 0), 1);
    assert_eq!(round_ratio(500, 1_000_000, 3), 1);
    assert_eq!(round_ratio(499, 1_000_000, 3), 0);
    assert_eq!(round_ratio(45_450, 1000, 1), 455);
    assert_eq!(round_ratio(45_449, 1000, 1), 454);
}

#[test]
fn ratios_take_the_largest_counters() {
    assert_eq!(round_ratio(u64::MAX as u128, 1_000_000, 3), 18_446_744_073_709_552);
    assert_eq!(round_ratio(u64::MAX as u128, 1, 0), u64::MAX as u128);
}
