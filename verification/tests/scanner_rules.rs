use zkteco_bridge::findings::{
    device_count, finding_detail, finding_identity, generic_finding, http_finding, open_finding,
    parse_http_head, probe_kind, redis_finding, service_finding_line, sort_findings, ssh_finding,
    zkteco_finding, ProbeKind,
};
use zkteco_bridge::ports::DeviceInfo;
use zkteco_bridge::scanner::{
    cidr_hosts, default_cidr, format_port_list, parse_ports_csv, port_label, scan_targets,
    suggested_device_code, target_label, truncate, ScanOptions,
};

fn ip(a: u8, b: u8, c: u8, d: u8) -> u32 {
    u32::from_be_bytes([a, b, c, d])
}

#[test]
fn cidr_hosts_expands_usable_hosts() {
    let hosts = cidr_hosts("192.168.10.0/30", false, "127.0.0.1/32").expect("hosts");
    assert_eq!(hosts, [ip(192, 168, 10, 1), ip(192, 168, 10, 2)]);
}

#[test]
fn cidr_hosts_accepts_single_host() {
    assert_eq!(
        cidr_hosts("192.168.10.55/32", false, "127.0.0.1/32").expect("host"),
        [ip(192, 168, 10, 55)]
    );
}

#[test]
fn cidr_hosts_rejects_wide_without_flag() {
    assert!(cidr_hosts("192.168.0.0/16", false, "127.0.0.1/32").is_err());
}

#[test]
fn cidr_hosts_allows_wide_with_flag() {
    let hosts = cidr_hosts("192.168.0.0/20", true, "127.0.0.1/32").expect("wide hosts");
    assert_eq!(hosts.len(), 4094);
}

#[test]
fn suggested_code_prefers_serial() {
    assert_eq!(suggested_device_code(Some("zk sn 01"), ip(192, 168, 1, 50)), "ZK-SN-01");
    assert_eq!(suggested_device_code(None, ip(192, 168, 1, 50)), "ZK-192-168-1-50");
}

#[test]
fn parse_ports_csv_works() {
    assert_eq!(parse_ports_csv("80,443,3000"), vec![80, 443, 3000]);
    assert_eq!(parse_ports_csv("4370"), vec![4370]);
    assert_eq!(parse_ports_csv("80, 443, bad, 22"), vec![80, 443, 22]);
}

#[test]
fn port_label_known_ports() {
    assert_eq!(port_label(22), "ssh");
    assert_eq!(port_label(80), "http");
    assert_eq!(port_label(4370), "zkteco");
    assert_eq!(port_label(12345), "open");
}

#[test]
fn cidr_errors_say_what_is_wrong() {
    assert_eq!(cidr_hosts("10.0.0.0", false, "").unwrap_err(), "CIDR must look like 192.168.1.0/24");
    assert_eq!(cidr_hosts("10.0.0.0/8", true, "").unwrap_err(), "scanner refuses networks larger than /16 for safety");
    assert_eq!(cidr_hosts("10.0.0.0/33", true, "").unwrap_err(), "CIDR prefix must be 0..=32");
    assert_eq!(cidr_hosts("10.0.0/24", true, "").unwrap_err(), "invalid IPv4 address syntax");
    assert_eq!(cidr_hosts("10.0.0.0/x", true, "").unwrap_err(), "invalid digit found in string");
    assert_eq!(
        cidr_hosts("192.168.0.0/22", false, "").unwrap_err(),
        "network /22 has 1024 hosts — pass --wide to allow ranges larger than /24\nOr use --host to scan specific IPs"
    );
    assert_eq!(cidr_hosts("  ", false, "10.1.2.4/31").unwrap(), [ip(10, 1, 2, 4), ip(10, 1, 2, 5)]);
}

#[test]
fn scan_targets_prefer_listed_hosts() {
    let mut opts = ScanOptions::default();
    opts.hosts = vec![ip(10, 0, 0, 7)];
    assert_eq!(scan_targets(&opts, "127.0.0.1/32").unwrap(), vec![ip(10, 0, 0, 7)]);
    assert_eq!(target_label(&opts, "x"), "10.0.0.7");
    let none = ScanOptions::default();
    assert_eq!(scan_targets(&none, "127.0.0.1/32").unwrap(), vec![ip(127, 0, 0, 1)]);
    assert_eq!(target_label(&none, "192.168.1.0/24"), "192.168.1.0/24");
    assert_eq!(default_cidr(Some(ip(192, 168, 7, 20))), "192.168.7.0/24");
    assert_eq!(default_cidr(None), "127.0.0.1/32");
}

#[test]
fn port_lists_are_labelled_or_summarized() {
    assert_eq!(format_port_list(&[22, 4370]), "22 (ssh), 4370 (zkteco)");
    assert_eq!(format_port_list(&[1, 2, 3, 4, 5, 6]), "6 ports (1–6)");
    let opts = ScanOptions { all_ports: true, ..ScanOptions::default() };
    assert_eq!(opts.effective_ports().len(), 13);
    assert_eq!(ScanOptions::default().effective_ports(), vec![4370]);
}

#[test]
fn long_text_is_cut_with_an_ellipsis() {
    assert_eq!(truncate("abc", 5), "abc");
    assert_eq!(truncate("abcdefgh", 5), "abcd…");
}

#[test]
fn probes_are_chosen_by_port() {
    assert_eq!(probe_kind(4370), ProbeKind::Zkteco);
    assert_eq!(probe_kind(8800), ProbeKind::Http);
    assert_eq!(probe_kind(22), ProbeKind::Ssh);
    assert_eq!(probe_kind(6379), ProbeKind::Redis);
    assert_eq!(probe_kind(5432), ProbeKind::Postgresql);
    assert_eq!(probe_kind(1234), ProbeKind::Other);
}

#[test]
fn device_findings_carry_identity_and_a_config_block() {
    let opts = ScanOptions { device_password: 7, ..ScanOptions::default() };
    let info = DeviceInfo {
        serial: " sn-9 ".into(),
        firmware: "FW 1".into(),
        platform: String::new(),
        name: "Gate".into(),
        users: 3,
        fingers: 4,
        records: 5,
    };
    let f = zkteco_finding(&opts, ip(10, 0, 0, 9), 4370, Ok(info)).expect("device");
    assert!(f.attendance_device);
    assert_eq!(f.serial.as_deref(), Some("sn-9"));
    assert_eq!(f.platform, None);
    assert_eq!(f.suggested_device_code, "SN-9");
    let cfg = f.suggested_config.as_ref().expect("config");
    assert_eq!(cfg.device_ip, "10.0.0.9");
    assert_eq!(cfg.device_password, 7);
    assert_eq!(cfg.api_key, "CHANGE_ME");
    assert_eq!(finding_identity(&f), "sn-9");
    assert_eq!(finding_detail(&f), "users=3 fingers=4 records=5 fw=FW 1");
    assert_eq!(
        service_finding_line(&f),
        "scanner: 10.0.0.9:4370 zkteco serial=sn-9 firmware=FW 1 users=3 fingers=4 records=5 code=SN-9"
    );
    assert!(zkteco_finding(&opts, ip(10, 0, 0, 9), 4370, Err("refused".into())).is_none());
    let open = ScanOptions { include_open: true, ..ScanOptions::default() };
    let f = zkteco_finding(&open, ip(10, 0, 0, 9), 4370, Err("refused".into())).expect("open");
    assert_eq!(f.error.as_deref(), Some("refused"));
    assert_eq!(f.suggested_device_code, "SRV-10-0-0-9");
}

#[test]
fn http_heads_give_status_and_server() {
    let lines: Vec<String> = ["HTTP/1.1 301 Moved", "Content-Type: text/html", "Server: nginx/1.2", "", "Server: later"]
        .iter()
        .map(|s| s.to_string())
        .collect();
    assert_eq!(parse_http_head(&lines), (301, Some("nginx/1.2".to_string())));
    let bad: Vec<String> = vec!["garbage".into()];
    assert_eq!(parse_http_head(&bad), (0, None));
    let opts = ScanOptions::default();
    let f = http_finding(&opts, ip(10, 0, 0, 1), 8443, Ok((200, Some("x".into()))));
    assert_eq!(f.service_type, "https");
    assert_eq!(finding_detail(&f), "HTTP 200");
    let failed = http_finding(&opts, ip(10, 0, 0, 1), 8080, Err("timeout".into()));
    assert_eq!(failed.service_type, "http-alt");
    assert_eq!(failed.error.as_deref(), Some("HTTP probe failed; port is open"));
}

#[test]
fn ssh_redis_and_generic_probes() {
    let opts = ScanOptions::default();
    let f = ssh_finding(&opts, ip(1, 2, 3, 4), 22, Ok(b"SSH-2.0-OpenSSH_9.6\r\n".to_vec())).expect("ssh");
    assert_eq!(f.name.as_deref(), Some("SSH-2.0-OpenSSH_9.6"));
    let not = ssh_finding(&opts, ip(1, 2, 3, 4), 22, Ok(b"hello".to_vec())).expect("open");
    assert_eq!(not.error.as_deref(), Some("open (not SSH banner)"));
    assert!(ssh_finding(&opts, ip(1, 2, 3, 4), 22, Err("x".into())).is_none());
    let r = redis_finding(&opts, ip(1, 2, 3, 4), 6379, Ok(b"+PONG\r\n".to_vec())).expect("redis");
    assert_eq!(r.name.as_deref(), Some("Redis"));
    assert!(redis_finding(&opts, ip(1, 2, 3, 4), 6379, Ok(b"nope".to_vec())).is_none());
    let g = generic_finding(&opts, ip(1, 2, 3, 4), 3306, "mysql").expect("mysql");
    assert_eq!(g.service_type, "mysql");
    assert!(generic_finding(&opts, ip(1, 2, 3, 4), 1234, "open").is_none());
    let e = open_finding(ip(1, 2, 3, 4), 9999, &"e".repeat(200));
    assert_eq!(e.error.map(|s| s.len()), Some(160));
}

#[test]
fn findings_sort_by_address_then_port() {
    let opts = ScanOptions::default();
    let a = generic_finding(&opts, ip(10, 0, 0, 20), 3306, "mysql").unwrap();
    let b = generic_finding(&opts, ip(10, 0, 0, 3), 5432, "postgresql").unwrap();
    let c = generic_finding(&opts, ip(10, 0, 0, 3), 22, "ssh").unwrap();
    let sorted = sort_findings(vec![a, b, c]);
    let keys: Vec<(String, u16)> = sorted.iter().map(|f| (f.ip.clone(), f.port)).collect();
    assert_eq!(
        keys,
        vec![("10.0.0.3".to_string(), 22), ("10.0.0.3".to_string(), 5432), ("10.0.0.20".to_string(), 3306)]
    );
    assert_eq!(device_count(&sorted), (0, 3));
}
