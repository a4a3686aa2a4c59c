use collaboration::strings::{parse_u32, to_decimal};

#[test]
fn numbers_are_written_and_read_back() {
    assert_eq!(to_decimal(0), "0");
    assert_eq!(to_decimal(1_234_567_890), "1234567890");
    assert_eq!(to_decimal(u64::MAX), "18446744073709551615");
    assert_eq!(parse_u32("4294967295"), Some(u32::MAX));
    assert_eq!(parse_u32("4294967296"), None);
    assert_eq!(parse_u32("+7"), Some(7));
    assert_eq!(parse_u32("007"), Some(7));
    assert_eq!(parse_u32(""), None);
    assert_eq!(parse_u32("+"), None);
    assert_eq!(parse_u32("-1"), None);
    assert_eq!(parse_u32("1a"), None);
}
