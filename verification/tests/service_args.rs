use zkteco_bridge::services::{
    address_hints, extract_log_path, format_uptime_secs, hrms_args, parse_bridge, parse_hrms,
    parse_zkteco, registry_order, service_url, zkteco_args, RegistryEntry, ServiceKind,
};

fn strings(v: &[&str]) -> Vec<String> {
    v.iter().map(|s| s.to_string()).collect()
}

#[test]
fn uptime_uses_the_two_largest_units() {
    assert_eq!(format_uptime_secs(0), "0s");
    assert_eq!(format_uptime_secs(59), "59s");
    assert_eq!(format_uptime_secs(61), "1m1s");
    assert_eq!(format_uptime_secs(3600), "1h0m");
    assert_eq!(format_uptime_secs(90061), "1d1h");
}

#[test]
fn mock_service_arguments_round_trip() {
    let args = zkteco_args(4371, 12);
    assert_eq!(args, strings(&["--port", "4371", "--records", "12"]));
    assert_eq!(parse_zkteco(&args), (4371, 12));
    let args = hrms_args(8090);
    assert_eq!(args, strings(&["--port", "8090"]));
    assert_eq!(parse_hrms(&args), 8090);
}

#[test]
fn service_arguments_fall_back_to_defaults() {
    assert_eq!(parse_zkteco(&[]), (4370, 5));
    assert_eq!(parse_zkteco(&strings(&["--port", "99999", "--records", "x"])), (4370, 5));
    assert_eq!(parse_zkteco(&strings(&["--port"])), (4370, 5));
    assert_eq!(parse_hrms(&[]), 8800);
}

#[test]
fn bridge_arguments_are_read() {
    let (config, interval, no_poll) =
        parse_bridge(&strings(&["--config", "/tmp/c.json", "--interval", "30", "--no-poll"]));
    assert_eq!(config.as_deref(), Some("/tmp/c.json"));
    assert_eq!(interval, Some(30));
    assert!(no_poll);
    assert_eq!(parse_bridge(&[]), (None, None, false));
}

#[test]
fn log_path_is_taken_out_of_child_arguments() {
    let (path, rest) = extract_log_path(&strings(&["--port", "1", "--log-path", "/x.log", "--y"]));
    assert_eq!(path.as_deref(), Some("/x.log"));
    assert_eq!(rest, strings(&["--port", "1", "--y"]));
    let (path, rest) = extract_log_path(&strings(&["--log-path"]));
    assert!(path.is_none());
    assert_eq!(rest, strings(&["--log-path"]));
}

#[test]
fn service_addresses_and_hints() {
    assert_eq!(service_url(ServiceKind::Zkteco, Some(4370), "10.0.0.5").as_deref(), Some("10.0.0.5:4370"));
    assert_eq!(service_url(ServiceKind::Hrms, Some(8090), "10.0.0.5").as_deref(), Some("http://10.0.0.5:8090"));
    assert_eq!(service_url(ServiceKind::AtBridge, Some(7070), "10.0.0.5").as_deref(), Some("http://127.0.0.1:7070"));
    assert_eq!(service_url(ServiceKind::Scanner, None, "x").as_deref(), Some("local network scanner"));
    assert!(service_url(ServiceKind::Hrms, None, "x").is_none());

    let hints = address_hints(ServiceKind::Hrms, Some("http://h:1"));
    assert_eq!(hints, strings(&["POST http://h:1/webhook   ← attendance events", "GET  http://h:1/events    ← inspect received events"]));
    assert!(address_hints(ServiceKind::Hrms, None).is_empty());
}

#[test]
fn kinds_round_trip_through_their_names() {
    for kind in ServiceKind::all() {
        assert_eq!(ServiceKind::from_name(kind.name()), Some(kind));
    }
    assert_eq!(ServiceKind::from_name("at-bridge"), Some(ServiceKind::AtBridge));
    assert_eq!(ServiceKind::from_name("nope"), None);
}

fn entry(service: &str, kind: &str) -> RegistryEntry {
    RegistryEntry {
        service: service.to_string(),
        kind: kind.to_string(),
        pid: 1,
        port: None,
        url: None,
        args: Vec::new(),
        started_at: "2024-01-01T00:00:00Z".to_string(),
        exe: "fbsy".to_string(),
    }
}

#[test]
fn registry_lists_by_kind_then_name() {
    let listed = registry_order(vec![
        entry("scanner", "scanner"),
        entry("mock-b", "hrms"),
        entry("bridge", "bridge"),
        entry("zzz", "other"),
        entry("mock-a", "hrms"),
        entry("hrms", ""),
    ]);
    let names: Vec<&str> = listed.iter().map(|e| e.service.as_str()).collect();
    assert_eq!(names, vec!["bridge", "hrms", "mock-a", "mock-b", "scanner", "zzz"]);
}
