use goesdown::duration::{parse_duration, DurationError};

#[test]
fn parse_exact_total() {
    assert_eq!(parse_duration("2d12h20m"), Ok(2 * 1440 + 12 * 60 + 20));
}

#[test]
fn parse_minutes_only() {
    assert_eq!(parse_duration("20m"), Ok(20));
}

#[test]
fn parse_mixed_units() {
    assert_eq!(parse_duration("1h30m"), Ok(90));
    assert_eq!(parse_duration("2h30m"), Ok(150));
    assert_eq!(parse_duration("1d"), Ok(1440));
}

#[test]
fn parse_zero() {
    assert_eq!(parse_duration("0m"), Ok(0));
}

#[test]
fn parse_empty_input() {
    assert_eq!(parse_duration(""), Err(DurationError::Empty));
}

#[test]
fn parse_unsupported_unit() {
    assert_eq!(parse_duration("5x"), Err(DurationError::UnsupportedUnit));
    assert_eq!(parse_duration("2h30s"), Err(DurationError::UnsupportedUnit));
}

#[test]
fn parse_trailing_digits() {
    assert_eq!(parse_duration("2h30"), Err(DurationError::Malformed));
}

#[test]
fn parse_missing_number() {
    assert_eq!(parse_duration("m"), Err(DurationError::Malformed));
    assert_eq!(parse_duration("2hm"), Err(DurationError::Malformed));
}

#[test]
fn parse_not_multiple_of_ten() {
    assert_eq!(parse_duration("15m"), Err(DurationError::NotMultipleOfTen));
}

#[test]
fn parse_huge_number() {
    assert_eq!(
        parse_duration("99999999999999999999m"),
        Err(DurationError::Malformed)
    );
}
