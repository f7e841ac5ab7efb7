use zkteco_bridge::senseface::{
    compute_event_key, compute_request_hash, event_type_from_adms_status, parse_attendance_line,
    parse_user_line, senseface_timezone_offset,
};

#[test]
fn parse_standard_attendance_line() {
    let line = "123\t2026-07-01 09:15:00\t0\t1\t";
    let result = parse_attendance_line(line).unwrap();
    assert_eq!(result.employee_id, "123");
    assert_eq!(result.event_time, "2026-07-01 09:15:00");
    assert_eq!(result.status, "0");
    assert_eq!(result.verify_mode, "1");
}

#[test]
fn parse_attendance_line_with_pin_prefix() {
    let line = "PIN=456\t2026-07-01 10:30:00\t1\t2\tWC1";
    let result = parse_attendance_line(line).unwrap();
    assert_eq!(result.employee_id, "456");
    assert_eq!(result.event_time, "2026-07-01 10:30:00");
    assert_eq!(result.status, "1");
    assert_eq!(result.verify_mode, "2");
    assert_eq!(result.work_code, "WC1");
}

#[test]
fn parse_attendance_line_invalid_returns_none() {
    assert!(parse_attendance_line("").is_none());
    assert!(parse_attendance_line("  ").is_none());
    assert!(parse_attendance_line("singlefield").is_none());
}

#[test]
fn parse_user_line_standard() {
    let line = "USER PIN=789\tName=John\tPri=0\tCard=123456";
    let result = parse_user_line(line).unwrap();
    assert_eq!(result.employee_id, "789");
    assert_eq!(result.name, "John");
    assert_eq!(result.privilege, "0");
    assert_eq!(result.card, "123456");
}

#[test]
fn parse_user_line_without_user_prefix() {
    let line = "PIN=ABC\tName=Jane\tPri=1";
    let result = parse_user_line(line).unwrap();
    assert_eq!(result.employee_id, "ABC");
    assert_eq!(result.name, "Jane");
}

#[test]
fn compute_event_key_is_deterministic() {
    let line = "123\t2026-07-01 09:15:00\t0";
    let key1 = compute_event_key(line);
    let key2 = compute_event_key(line);
    assert_eq!(key1, key2);
    assert_eq!(key1.len(), 64);
}

#[test]
fn event_type_maps_correctly() {
    assert_eq!(event_type_from_adms_status("0"), "check_in");
    assert_eq!(event_type_from_adms_status(""), "check_in");
    assert_eq!(event_type_from_adms_status("1"), "check_out");
    assert_eq!(event_type_from_adms_status("255"), "check_out");
}

#[test]
fn senseface_timezone_parses_fixed_offset() {
    let offset = senseface_timezone_offset("+06:00").unwrap();
    assert_eq!(offset, 6 * 3600);
}

#[test]
fn senseface_timezone_parses_iana_name() {
    let offset = senseface_timezone_offset("Asia/Dhaka").unwrap();
    assert_eq!(offset, 6 * 3600);
}

#[test]
fn senseface_timezone_unknown_returns_none() {
    assert!(senseface_timezone_offset("Mars/Olympus").is_none());
}

#[test]
fn compute_request_hash_is_deterministic() {
    let h1 = compute_request_hash("SN123", "table=ATTLOG", b"data");
    let h2 = compute_request_hash("SN123", "table=ATTLOG", b"data");
    assert_eq!(h1, h2);
}

#[test]
fn event_keys_are_the_sha256_of_the_line() {
    assert_eq!(
        compute_event_key("abc"),
        "ba7816bf8f01cfea414140de5dae2223b00361a396177a9cb410ff61f20015ad"
    );
    assert_ne!(compute_request_hash("SN1", "q", b"x"), compute_request_hash("SN1", "q", b"y"));
}
