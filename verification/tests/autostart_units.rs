use zkteco_bridge::autostart::{
    launchd_plist, launcher_vbs_path, schtasks_create_args, status_label, systemd_unit, task_name,
    windows_launcher_cmd, windows_launcher_cmd_path, windows_launcher_vbs, AutostartStatus, UnitCtx,
};
use zkteco_bridge::services::ServiceKind;

fn ctx() -> UnitCtx {
    UnitCtx {
        name: "bridge".to_string(),
        kind: ServiceKind::AtBridge,
        exe: "/home/u/.local/bin/fbsy".to_string(),
        config: "/home/u/.config/fbsy/config/config.json".to_string(),
        log: "/home/u/.config/fbsy/logs/bridge.log".to_string(),
    }
}

#[test]
fn systemd_unit_is_a_user_unit_with_restart() {
    let unit = systemd_unit(&ctx());
    assert!(unit.contains(
        "ExecStart=/home/u/.local/bin/fbsy __service-supervised bridge \
         --config /home/u/.config/fbsy/config/config.json \
         --log-path /home/u/.config/fbsy/logs/bridge.log"
    ));
    assert!(unit.contains("Restart=always"));
    assert!(unit.contains("WantedBy=default.target"));
    assert!(!unit.contains("User="));
}

#[test]
fn launchd_plist_has_runatload_and_program_args() {
    let plist = launchd_plist(&ctx());
    assert!(plist.contains("<key>RunAtLoad</key>"));
    assert!(plist.contains("<key>KeepAlive</key>"));
    assert!(plist.contains("<string>__service-supervised</string>"));
    assert!(plist.contains("<string>/home/u/.config/fbsy/config/config.json</string>"));
    assert!(plist.contains("<string>--log-path</string>"));
    assert!(plist.contains("<string>/home/u/.config/fbsy/logs/bridge.log</string>"));
    assert!(plist.contains("com.fbsy.bridge"));
    assert!(!plist.contains("UserName"));
}

#[test]
fn schtasks_args_use_onlogon_and_hidden_vbs_launcher() {
    let args = schtasks_create_args(&ctx());
    assert!(args.contains(&"onlogon".to_string()));
    assert!(!args.contains(&"SYSTEM".to_string()));
    assert!(args.contains(&"fbsy-bridge".to_string()));
    let tr = args.iter().find(|a| a.contains("wscript.exe")).unwrap();
    assert!(tr.contains("bridge-launcher.vbs"));
}

#[test]
fn windows_launcher_starts_supervised_bridge_hidden() {
    let vbs = windows_launcher_vbs(&ctx());
    assert!(vbs.contains("cmd.exe /C"));
    assert!(vbs.contains("bridge-launcher.cmd"));
    assert!(vbs.contains(", 0, False"));
    assert_eq!(launcher_vbs_path(&ctx()), "/home/u/.config/fbsy/run/bridge-launcher.vbs");
    assert_eq!(windows_launcher_cmd_path(&ctx()), "/home/u/.config/fbsy/run/bridge-launcher.cmd");
}

#[test]
fn windows_cmd_launcher_redirects_service_output_to_log() {
    let cmd = windows_launcher_cmd(&ctx());
    assert!(cmd.contains("__service-supervised bridge"));
    assert!(cmd.contains("--config \"/home/u/.config/fbsy/config/config.json\""));
    assert!(cmd.contains("--log-path \"/home/u/.config/fbsy/logs/bridge.log\""));
    assert!(cmd.contains(">> \"/home/u/.config/fbsy/logs/bridge.log\" 2>&1"));
}

#[test]
fn task_names_carry_the_instance() {
    assert_eq!(task_name("bridge"), "fbsy-bridge");
}

#[test]
fn status_labels_cover_each_state() {
    assert_eq!(status_label(&AutostartStatus { installed: true }), "on");
    assert_eq!(status_label(&AutostartStatus { installed: false }), "-");
}
