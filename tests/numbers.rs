use tube_rs::numbers::{parse_u64, seconds_to_ms};

#[test]
fn parse_u64_reads_decimals() {
    assert_eq!(parse_u64("0"), Some(0));
    assert_eq!(parse_u64("1722470400123456"), Some(1722470400123456));
    assert_eq!(parse_u64("+42"), Some(42));
    assert_eq!(parse_u64("18446744073709551615"), Some(u64::MAX));
}

#[test]
fn parse_u64_rejects_bad_input() {
    assert_eq!(parse_u64(""), None);
    assert_eq!(parse_u64("+"), None);
    assert_eq!(parse_u64("-1"), None);
    assert_eq!(parse_u64("12a"), None);
    assert_eq!(parse_u64(" 1"), None);
    assert_eq!(parse_u64("18446744073709551616"), None);
}

#[test]
fn seconds_to_ms_truncates() {
    assert_eq!(seconds_to_ms("2.4"), Some(2400));
    assert_eq!(seconds_to_ms("2.49"), Some(2490));
    assert_eq!(seconds_to_ms("5"), Some(5000));
    assert_eq!(seconds_to_ms("2.223"), Some(2223));
    assert_eq!(seconds_to_ms("0.8339"), Some(833));
    assert_eq!(seconds_to_ms(".5"), Some(500));
    assert_eq!(seconds_to_ms("10."), Some(10000));
}

#[test]
fn seconds_to_ms_rejects_bad_input() {
    assert_eq!(seconds_to_ms(""), None);
    assert_eq!(seconds_to_ms("."), None);
    assert_eq!(seconds_to_ms("1.2.3"), None);
    assert_eq!(seconds_to_ms("abc"), None);
    assert_eq!(seconds_to_ms("99999999999999999999"), None);
}
