use rocksdb_in_tikv::units::{ParseError, parse_readable_int};

#[test]
fn parses_size_units() {
    assert_eq!(parse_readable_int("128MB"), Ok(128 * 1024 * 1024));
    assert_eq!(parse_readable_int("1kb"), Ok(1024));
    assert_eq!(parse_readable_int("2gb"), Ok(2 * 1024 * 1024 * 1024));
    assert_eq!(parse_readable_int("1tb"), Ok(1024i64 * 1024 * 1024 * 1024));
    assert_eq!(parse_readable_int("1pb"), Ok(1024i64 * 1024 * 1024 * 1024 * 1024));
}

#[test]
fn parses_time_units() {
    assert_eq!(parse_readable_int("2h"), Ok(2 * 60 * 60 * 1000));
    assert_eq!(parse_readable_int("500ms"), Ok(500));
    assert_eq!(parse_readable_int("10s"), Ok(10_000));
    assert_eq!(parse_readable_int("3m"), Ok(180_000));
}

#[test]
fn rejects_missing_number() {
    assert_eq!(parse_readable_int("abc"), Err(ParseError::BadNumber));
    assert_eq!(parse_readable_int(""), Err(ParseError::BadNumber));
    assert_eq!(parse_readable_int(".kb"), Err(ParseError::BadNumber));
    assert_eq!(parse_readable_int("1.2.3kb"), Err(ParseError::BadNumber));
}

#[test]
fn rejects_unknown_unit() {
    assert_eq!(parse_readable_int("12qq"), Err(ParseError::UnknownUnit));
    assert_eq!(parse_readable_int("12"), Err(ParseError::UnknownUnit));
    assert_eq!(parse_readable_int("12kbps"), Err(ParseError::UnknownUnit));
}

#[test]
fn unit_matching_ignores_ascii_case() {
    assert_eq!(parse_readable_int("128Mb"), parse_readable_int("128MB"));
    assert_eq!(parse_readable_int("128Mb"), Ok(128 * 1024 * 1024));
    assert_eq!(parse_readable_int("1Gb"), Ok(1024 * 1024 * 1024));
    assert_eq!(parse_readable_int("5S"), Ok(5000));
    assert_eq!(parse_readable_int("7H"), parse_readable_int("7h"));
}

#[test]
fn scales_fractional_numbers_exactly() {
    assert_eq!(parse_readable_int("0.5kb"), Ok(512));
    assert_eq!(parse_readable_int("1.5mb"), Ok(1024 * 1024 + 512 * 1024));
    assert_eq!(parse_readable_int("0.5ms"), Ok(0));
    assert_eq!(parse_readable_int("2.s"), Ok(2000));
    assert_eq!(parse_readable_int(".5s"), Ok(500));
}

#[test]
fn saturates_at_i64_max() {
    assert_eq!(parse_readable_int("999999999999pb"), Ok(i64::MAX));
}
