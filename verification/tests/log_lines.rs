use zkteco_bridge::logging::{event_line, is_displayable_ip, lan_host, parse_timestamp, Level};

#[test]
fn parse_timestamp_reads_leading_rfc3339() {
    let line = "2026-06-27T10:15:02.310Z INFO  [sync GATE-01] hello";
    assert!(parse_timestamp(line).is_some());
}

#[test]
fn parse_timestamp_rejects_untimestamped_lines() {
    assert!(parse_timestamp("mock-zkteco: client connected").is_none());
    assert!(parse_timestamp("").is_none());
}

#[test]
fn displayable_ip_rejects_wildcard_and_loopback() {
    assert!(!is_displayable_ip(u32::from_be_bytes([0, 0, 0, 0])));
    assert!(!is_displayable_ip(u32::from_be_bytes([127, 0, 0, 1])));
    assert!(is_displayable_ip(u32::from_be_bytes([192, 168, 1, 50])));
}

#[test]
fn log_lines_have_time_level_and_component() {
    assert_eq!(
        event_line("2026-06-27T10:15:02.310Z", Level::Info, "sync GATE-01", "hello"),
        "2026-06-27T10:15:02.310Z INFO  [sync GATE-01] hello"
    );
    assert_eq!(Level::Error.label(), "ERROR");
    let a = parse_timestamp("2026-06-27T10:15:02.310Z x").unwrap();
    let b = parse_timestamp("2026-06-27T12:15:02.310+02:00 y").unwrap();
    assert_eq!(a, b);
    assert_eq!(lan_host(None), "127.0.0.1");
    assert_eq!(lan_host(Some(u32::from_be_bytes([10, 1, 2, 3]))), "10.1.2.3");
}
