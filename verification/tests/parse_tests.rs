use latency_probe::parse::{dur_from_str, to_duration, to_log_level, to_size_u64, to_size_usize,
    LogLevel, ParseError};

#[test]
fn dur_from_str_basics() {
    assert_eq!(dur_from_str("15s"), Ok(15_000_000_000));
    assert_eq!(dur_from_str("2ns"), Ok(2));
    assert_eq!(dur_from_str("3us"), Ok(3_000));
    assert_eq!(dur_from_str("7ms"), Ok(7_000_000));
    assert_eq!(dur_from_str("1m"), Ok(60_000_000_000));
    assert_eq!(dur_from_str("100ms500us"), Ok(100_500_000));
    assert_eq!(dur_from_str("1m30s"), Ok(90_000_000_000));
    // a trailing bare number counts as whole seconds
    assert_eq!(dur_from_str("5"), Ok(5_000_000_000));
    assert_eq!(dur_from_str("1m30"), Ok(90_000_000_000));
}

#[test]
fn dur_from_str_rejections() {
    assert_eq!(dur_from_str("5h"), Err(ParseError::BadUnit));
    // a unit with no number in front of it
    assert_eq!(dur_from_str("x5s"), Err(ParseError::BadNumber));
    assert_eq!(dur_from_str(""), Err(ParseError::BadNumber));
    // too many digits for 64 bits
    assert_eq!(dur_from_str("99999999999999999999s"), Err(ParseError::BadNumber));
    // the number fits but the nanosecond sum does not
    assert_eq!(dur_from_str("18446744073709551615s"), Err(ParseError::Overflow));
    assert_eq!(dur_from_str("18446744073709551615"), Err(ParseError::Overflow));
}

#[test]
fn to_duration_basics() {
    assert_eq!(to_duration("1h30m"), Ok(5400));
    assert_eq!(to_duration("90"), Ok(90));
    assert_eq!(to_duration("2d"), Ok(172800));
    assert_eq!(to_duration("1w"), Ok(604800));
    assert_eq!(to_duration("1m30"), Ok(90));
    assert_eq!(to_duration(""), Ok(0));
}

#[test]
fn to_duration_rejections() {
    assert_eq!(to_duration("10x"), Err(ParseError::BadUnit));
    assert_eq!(to_duration("s"), Err(ParseError::BadNumber));
    assert_eq!(to_duration("99999999999999999999s"), Err(ParseError::BadNumber));
    assert_eq!(to_duration("18446744073709551615s18446744073709551615s"),
        Err(ParseError::Overflow));
}

#[test]
fn to_size_basics() {
    assert_eq!(to_size_u64("1k"), Ok(1024));
    assert_eq!(to_size_u64("1K512"), Ok(1536));
    assert_eq!(to_size_u64("2m"), Ok(2_097_152));
    assert_eq!(to_size_u64("1G"), Ok(1_073_741_824));
    assert_eq!(to_size_u64("1t"), Ok(1_099_511_627_776));
    assert_eq!(to_size_u64("1P"), Ok(1_125_899_906_842_624));
    assert_eq!(to_size_u64("300"), Ok(300));
    assert_eq!(to_size_u64(""), Ok(0));
}

#[test]
fn to_size_rejections() {
    assert_eq!(to_size_u64("1q"), Err(ParseError::BadUnit));
    assert_eq!(to_size_u64("k"), Err(ParseError::BadNumber));
    assert_eq!(to_size_u64("18446744073709551615k"), Err(ParseError::Overflow));
}

#[test]
fn to_size_usize_matches_u64() {
    assert_eq!(to_size_usize("1k"), Ok(1024usize));
    assert_eq!(to_size_usize("bad"), Err(ParseError::BadNumber));
}

#[test]
fn log_levels_by_name_and_letter() {
    assert_eq!(to_log_level("off"), Ok(LogLevel::Off));
    assert_eq!(to_log_level("o"), Ok(LogLevel::Off));
    assert_eq!(to_log_level("error"), Ok(LogLevel::Error));
    assert_eq!(to_log_level("e"), Ok(LogLevel::Error));
    assert_eq!(to_log_level("warn"), Ok(LogLevel::Warn));
    assert_eq!(to_log_level("w"), Ok(LogLevel::Warn));
    assert_eq!(to_log_level("info"), Ok(LogLevel::Info));
    assert_eq!(to_log_level("i"), Ok(LogLevel::Info));
    assert_eq!(to_log_level("debug"), Ok(LogLevel::Debug));
    assert_eq!(to_log_level("d"), Ok(LogLevel::Debug));
    assert_eq!(to_log_level("trace"), Ok(LogLevel::Trace));
    assert_eq!(to_log_level("t"), Ok(LogLevel::Trace));
    assert_eq!(to_log_level("verbose"), Err(ParseError::BadUnit));
    assert_eq!(to_log_level(""), Err(ParseError::BadUnit));
}
