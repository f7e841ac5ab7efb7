use zkteco_bridge::cli::UninstallArgs;
use zkteco_bridge::config::{BridgeConfig, BridgeDeviceConfig, BridgeMode};
use zkteco_bridge::doctor::{build_report, device_report, find_device, next_steps, shown, MachineFacts};
use zkteco_bridge::domain::SyncResult;
use zkteco_bridge::install::{
    appended, has_marker, path_line, path_removal_script, powershell_literal, rc_components,
    self_delete_script, shell_kind, uninstall_asks, uninstall_is_full, without_path_line, ShellKind,
};
use zkteco_bridge::services::{ServiceKind, ServiceStatus};
use zkteco_bridge::summary::{ago, bridge_status, newest_result, sync_summary, ConfigState};

fn device(code: &str) -> BridgeDeviceConfig {
    BridgeDeviceConfig {
        device_ip: "10.0.0.9".into(),
        device_port: 4370,
        device_password: 0,
        device_timeout: 15,
        device_force_udp: false,
        device_omit_ping: true,
        device_timezone: None,
        device_code: code.into(),
        api_key: "k".into(),
        organization_id: 1,
        sync_interval_seconds: 300,
        clear_attendance_after_sync: false,
        clear_attendance_threshold: None,
    }
}

fn config(codes: &[&str]) -> BridgeConfig {
    BridgeConfig {
        bridge_mode: BridgeMode::Pull,
        vps_webhook_url: "http://127.0.0.1:8800/webhook".into(),
        bridge_port: 7070,
        auto_start_on_boot: false,
        hrms_base_url: None,
        hrms_api_token: None,
        job_poll_interval_seconds: 60,
        auto_update: false,
        update_check_interval_hours: 24,
        devices: codes.iter().map(|c| device(c)).collect(),
        sense_face: None,
    }
}

fn result(code: &str, started: &str, ok: bool) -> SyncResult {
    SyncResult {
        ok,
        device_code: code.into(),
        pulled: 3,
        forwarded: 2,
        device_attendance_cleared: false,
        started_at: started.into(),
        message: "done".into(),
    }
}

#[test]
fn install_adds_a_marked_path_line_and_uninstall_removes_it() {
    assert_eq!(shell_kind("zsh"), ShellKind::Zsh);
    assert_eq!(shell_kind("fish"), ShellKind::Fish);
    assert_eq!(shell_kind("sh"), ShellKind::Bash);
    assert_eq!(rc_components(ShellKind::Fish), vec![".config", "fish", "config.fish"]);
    let line = path_line(ShellKind::Bash, "/home/u/.local/bin");
    assert_eq!(line, "export PATH=\"/home/u/.local/bin:$PATH\" # added by fbsy install");
    assert_eq!(path_line(ShellKind::Fish, "/b"), "fish_add_path /b # added by fbsy install");

    let before = "alias ll='ls -l'\n";
    assert!(!has_marker(before));
    let after = format!("{before}{}", appended(&line));
    assert!(has_marker(&after));
    assert_eq!(without_path_line(&after).unwrap(), "alias ll='ls -l'\n");
    assert!(without_path_line(before).is_none());
    assert_eq!(without_path_line("# added by fbsy install\n").unwrap(), "");
}

#[test]
fn uninstall_choices() {
    let quiet = UninstallArgs { full: false, yes: true };
    let full = UninstallArgs { full: true, yes: false };
    let ask = UninstallArgs { full: false, yes: false };
    assert!(!uninstall_asks(&quiet));
    assert!(!uninstall_asks(&full));
    assert!(uninstall_asks(&ask));
    assert!(uninstall_is_full(&full, None));
    assert!(!uninstall_is_full(&quiet, Some(1)));
    assert!(uninstall_is_full(&ask, Some(1)));
    assert!(!uninstall_is_full(&ask, Some(0)));
}

#[test]
fn windows_scripts_quote_paths() {
    assert_eq!(powershell_literal("C:\\it's"), "'C:\\it''s'");
    let script = path_removal_script("C:\\bin");
    assert!(script.starts_with("$installDir = 'C:\\bin'; $userPath"));
    let del = self_delete_script(42, "C:\\fbsy.exe");
    assert!(del.starts_with("$pidToWait = 42; try"));
    assert!(del.contains("Remove-Item -LiteralPath 'C:\\fbsy.exe' -Force"));
}

#[test]
fn doctor_finds_devices_and_suggests_steps() {
    let cfg = config(&["GATE", "DOOR"]);
    assert_eq!(find_device(&cfg, "DOOR"), Ok(1));
    assert_eq!(find_device(&cfg, "X"), Err("device 'X' not found. Available: GATE, DOOR".to_string()));
    assert_eq!(find_device(&config(&[]), "X"), Err("device 'X' not found. Available: ".to_string()));
    assert_eq!(next_steps(false, false), vec!["fbsy setup".to_string()]);
    assert_eq!(next_steps(true, false), vec!["fix config.json and run fbsy config validate".to_string()]);
    assert_eq!(next_steps(true, true).len(), 3);
    assert_eq!(shown(""), "-");
    assert_eq!(shown("x"), "x");

    let report = device_report(&cfg.devices[0], Some(Err("refused".into())), None);
    let conn = report.device_connection.clone().unwrap();
    assert!(!conn.ok);
    assert_eq!(conn.message, "refused");
    assert!(report.webhook.is_none());

    let facts = MachineFacts {
        executable_path: "/bin/fbsy".into(),
        config_path: "/c.json".into(),
        config_exists: true,
        log_dir: "/logs".into(),
        log_dir_exists: false,
    };
    let full = build_report(facts, Ok(&cfg), true, vec![report]);
    assert!(full.config_valid);
    assert_eq!(full.device_count, 2);
    assert_eq!(full.bridge_port_available, Some(true));
    assert_eq!(full.devices.len(), 1);
    assert_eq!(full.config_path, "/c.json");

    let facts = MachineFacts {
        executable_path: "/bin/fbsy".into(),
        config_path: "/c.json".into(),
        config_exists: true,
        log_dir: "/logs".into(),
        log_dir_exists: true,
    };
    let broken = build_report(facts, Err("bad json".into()), true, Vec::new());
    assert!(!broken.config_valid);
    assert_eq!(broken.config_error.as_deref(), Some("bad json"));
    assert_eq!(broken.bridge_port_available, None);
    assert_eq!(broken.next_steps, vec!["fix config.json and run fbsy config validate".to_string()]);
}

#[test]
fn summaries_say_how_long_ago() {
    assert_eq!(ago(-5), "just now");
    assert_eq!(ago(59), "59s ago");
    assert_eq!(ago(120), "2m ago");
    assert_eq!(ago(7200), "2h ago");
    assert_eq!(ago(172800), "2d ago");

    let results = vec![
        Some(result("A", "2024-01-01T00:00:00Z", true)),
        None,
        Some(result("B", "2024-02-01T00:00:00Z", false)),
        Some(result("C", "2024-02-01T00:00:00Z", true)),
    ];
    let newest = newest_result(&results).unwrap();
    assert_eq!(newest.device_code, "B");
    assert!(newest_result(&vec![None, None]).is_none());

    assert_eq!(
        sync_summary(ConfigState::Devices(2), &Some(newest), Some(90)),
        "last sync ✗ B · pulled 3 · forwarded 2 · 1m ago"
    );
    assert_eq!(
        sync_summary(ConfigState::Devices(2), &None, None),
        "2 device(s) configured · no sync yet — press s to start the bridge"
    );
    assert_eq!(sync_summary(ConfigState::Devices(0), &None, None), "no devices configured — type setup to add one");
    assert_eq!(sync_summary(ConfigState::Missing, &None, None), "no config yet — type setup to connect your device and HRMS");
}

#[test]
fn the_bridge_row_is_found_or_reported_stopped() {
    let row = |name: &str, running: bool| ServiceStatus {
        name: name.into(),
        kind: ServiceKind::Hrms,
        running,
        pid: Some(7),
        port: None,
        url: None,
        uptime_secs: None,
    };
    let found = bridge_status(vec![row("hrms", true), row("bridge", true)]);
    assert!(found.running);
    assert_eq!(found.pid, Some(7));
    let stopped = bridge_status(vec![row("hrms", true)]);
    assert_eq!(stopped.name, "bridge");
    assert_eq!(stopped.kind, ServiceKind::AtBridge);
    assert!(!stopped.running);
}
