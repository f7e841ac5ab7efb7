use zkteco_bridge::domain::{
    default_utc_offset, parse_utc_offset, resolve_device_timezone_offset, resolve_iana_timezone_offset,
};

#[test]
fn fixed_offsets_are_read_as_written() {
    assert_eq!(default_utc_offset(), 0);
    assert_eq!(parse_utc_offset("+06:00"), Some(21600));
    assert_eq!(parse_utc_offset("-0530"), Some(-19800));
    assert_eq!(parse_utc_offset("utc"), Some(0));
    assert_eq!(parse_utc_offset("Asia/Dhaka"), None);
    assert_eq!(resolve_device_timezone_offset("+06:00"), Some(21600));
}

#[test]
fn iana_zones_resolve_to_todays_offset() {
    // Dhaka keeps no daylight saving time, so its offset is fixed.
    assert_eq!(resolve_iana_timezone_offset(" Asia/Dhaka "), Some(21600));
    assert_eq!(resolve_device_timezone_offset("Asia/Dhaka"), Some(21600));
    assert_eq!(resolve_iana_timezone_offset("Not/AZone"), None);
    assert_eq!(resolve_device_timezone_offset("nowhere"), None);
}
