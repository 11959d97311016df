use ffmpeg_cli::{parse_decimal, parse_line, parse_speed, parse_u64, Decimal, Duration, NumError};

#[test]
fn parse_line_splits_on_first_equals() {
    let (k, v) = parse_line("frame=15\n").unwrap();
    assert_eq!(k, "frame");
    assert_eq!(v, "15");
}

#[test]
fn parse_line_trims_incidental_whitespace() {
    let (k, v) = parse_line("  speed=1.02x  ").unwrap();
    assert_eq!(k, "speed");
    assert_eq!(v, "1.02x");

    let (k, v) = parse_line("  key = value  ").unwrap();
    assert_eq!(k, "key");
    assert_eq!(v, "value");
}

#[test]
fn parse_line_without_equals_is_absent() {
    assert!(parse_line("noequalssign").is_none());
    assert!(parse_line("\n").is_none());
    assert!(parse_line("").is_none());
}

#[test]
fn parse_line_value_may_contain_equals() {
    let (k, v) = parse_line("bitrate=128kbits/s=\n").unwrap();
    assert_eq!(k, "bitrate");
    assert_eq!(v, "128kbits/s=");
}

#[test]
fn parse_u64_reads_decimal_digits() {
    assert_eq!(parse_u64("15"), Ok(15));
    assert_eq!(parse_u64("+5"), Ok(5));
    assert_eq!(parse_u64("0"), Ok(0));
    assert_eq!(parse_u64("18446744073709551615"), Ok(u64::MAX));
}

#[test]
fn parse_u64_rejects_bad_input() {
    assert_eq!(parse_u64(""), Err(NumError::Empty));
    assert_eq!(parse_u64("+"), Err(NumError::Empty));
    assert_eq!(parse_u64("-5"), Err(NumError::InvalidDigit));
    assert_eq!(parse_u64("12a"), Err(NumError::InvalidDigit));
    assert_eq!(parse_u64("18446744073709551616"), Err(NumError::Overflow));
    assert_eq!(parse_u64("99999999999999999999999"), Err(NumError::Overflow));
}

#[test]
fn parse_decimal_keeps_the_printed_scale() {
    assert_eq!(parse_decimal("24.0"), Ok(Decimal { neg: false, mantissa: 240, scale: 1 }));
    assert_eq!(parse_decimal("2.50"), Ok(Decimal { neg: false, mantissa: 250, scale: 2 }));
    assert_eq!(parse_decimal("7"), Ok(Decimal { neg: false, mantissa: 7, scale: 0 }));
    assert_eq!(parse_decimal("-0.5"), Ok(Decimal { neg: true, mantissa: 5, scale: 1 }));
    assert_eq!(parse_decimal("+1.5"), Ok(Decimal { neg: false, mantissa: 15, scale: 1 }));
    assert_eq!(parse_decimal(".5"), Ok(Decimal { neg: false, mantissa: 5, scale: 1 }));
    assert_eq!(parse_decimal("5."), Ok(Decimal { neg: false, mantissa: 5, scale: 0 }));
}

#[test]
fn exponent_notation_folds_into_mantissa_and_scale() {
    assert_eq!(parse_decimal("1.15e+03"), Ok(Decimal { neg: false, mantissa: 1150, scale: 0 }));
    assert_eq!(parse_decimal("1e3"), Ok(Decimal { neg: false, mantissa: 1000, scale: 0 }));
    assert_eq!(parse_decimal("1.5e1"), Ok(Decimal { neg: false, mantissa: 15, scale: 0 }));
    assert_eq!(parse_decimal("1E2"), Ok(Decimal { neg: false, mantissa: 100, scale: 0 }));
    assert_eq!(parse_decimal("2.5e-2"), Ok(Decimal { neg: false, mantissa: 25, scale: 3 }));
    assert_eq!(parse_decimal("1e-2"), Ok(Decimal { neg: false, mantissa: 1, scale: 2 }));
    assert_eq!(parse_decimal("-1.5e2"), Ok(Decimal { neg: true, mantissa: 150, scale: 0 }));
    assert_eq!(parse_decimal("0e10"), Ok(Decimal { neg: false, mantissa: 0, scale: 0 }));
    assert_eq!(
        parse_decimal("1e19"),
        Ok(Decimal { neg: false, mantissa: 10_000_000_000_000_000_000, scale: 0 })
    );
}

#[test]
fn exponent_notation_rejects_bad_input() {
    assert_eq!(parse_decimal("1e"), Err(NumError::Empty));
    assert_eq!(parse_decimal("1e+"), Err(NumError::Empty));
    assert_eq!(parse_decimal("1e2.5"), Err(NumError::InvalidDigit));
    assert_eq!(parse_decimal("2e19"), Err(NumError::Overflow));
    assert_eq!(parse_decimal("1e99999999999999999999"), Err(NumError::Overflow));
    assert_eq!(parse_decimal("inf"), Err(NumError::InvalidDigit));
    assert_eq!(parse_decimal("NaN"), Err(NumError::InvalidDigit));
}

#[test]
fn speed_accepts_exponent_notation() {
    assert_eq!(parse_speed("1.15e+03x"), Ok(Decimal { neg: false, mantissa: 1150, scale: 0 }));
    assert_eq!(parse_speed("9.5e-05x"), Ok(Decimal { neg: false, mantissa: 95, scale: 6 }));
}

#[test]
fn parse_decimal_rejects_bad_input() {
    assert_eq!(parse_decimal(""), Err(NumError::Empty));
    assert_eq!(parse_decimal("."), Err(NumError::Empty));
    assert_eq!(parse_decimal("-"), Err(NumError::Empty));
    assert_eq!(parse_decimal("1.2.3"), Err(NumError::InvalidDigit));
    assert_eq!(parse_decimal("abc"), Err(NumError::InvalidDigit));
    assert_eq!(parse_decimal("18446744073709551616"), Err(NumError::Overflow));
}

#[test]
fn speed_strips_the_trailing_unit_character() {
    assert_eq!(parse_speed("2.50x"), Ok(Decimal { neg: false, mantissa: 250, scale: 2 }));
    assert_eq!(parse_speed("1.02x"), Ok(Decimal { neg: false, mantissa: 102, scale: 2 }));
    assert_eq!(parse_speed("x"), Err(NumError::Empty));
    assert_eq!(parse_speed(""), Err(NumError::Empty));
    assert_eq!(parse_speed("zx"), Err(NumError::InvalidDigit));
}

#[test]
fn duration_conversion_is_exact() {
    assert_eq!(Duration::from_micros(1_500_000), Duration { secs: 1, micros: 500_000 });
    assert_eq!(Duration::from_micros(999_999), Duration { secs: 0, micros: 999_999 });
    assert_eq!(Duration::from_micros(0), Duration { secs: 0, micros: 0 });
    assert_eq!(Duration::from_micros(2_000_000), Duration { secs: 2, micros: 0 });
}
