use scribe::disks::{DeviceNumber, Major};
use scribe::text::{parse_decimal, trimmed};

#[test]
fn majors_from_numbers() {
    assert_eq!(Major::from(0), Major::Unnamed);
    assert_eq!(Major::from(7), Major::Loopback);
    assert_eq!(Major::from(8), Major::ScsiDisk);
    assert_eq!(Major::from(22), Major::SecondsIde);
    assert_eq!(Major::from(179), Major::NotSupported);
}

#[test]
fn device_numbers_parse() {
    let d = DeviceNumber::from_str("8:16\n").unwrap();
    assert_eq!(d.major, Major::ScsiDisk);
    assert_eq!(d.minor, 16);
    let d = DeviceNumber::from_str("7:0:9").unwrap();
    assert_eq!(d.major, Major::Loopback);
    assert_eq!(d.minor, 0);
    assert!(DeviceNumber::from_str("8").is_err());
    assert!(DeviceNumber::from_str("8:").is_err());
    assert!(DeviceNumber::from_str("8:65536").is_err());
    assert!(DeviceNumber::from_str("x:1").is_err());
}

#[test]
fn text_helpers() {
    assert_eq!(trimmed("  a b \n"), "a b");
    assert_eq!(trimmed(" \t\n"), "");
    assert_eq!(parse_decimal("0"), Some(0));
    assert_eq!(parse_decimal("18446744073709551615"), Some(u64::MAX));
    assert_eq!(parse_decimal("18446744073709551616"), None);
    assert_eq!(parse_decimal("-1"), None);
    assert_eq!(parse_decimal("+7"), Some(7));
    assert_eq!(parse_decimal("+"), None);
    assert_eq!(parse_decimal("++7"), None);
    assert_eq!(DeviceNumber::from_str("+8:+1").unwrap().minor, 1);
}
