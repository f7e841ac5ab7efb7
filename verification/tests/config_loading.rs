use zkteco_bridge::config::{redact, BridgeConfig, BridgeMode, ConfigError};
use zkteco_bridge::json::{Json, JsonNumber};

fn to_json(v: &serde_json::Value) -> Json {
    match v {
        serde_json::Value::Null => Json::Null,
        serde_json::Value::Bool(b) => Json::Bool(*b),
        serde_json::Value::Number(n) => Json::Number(JsonNumber {
            as_u64: n.as_u64(),
            as_i64: n.as_i64(),
            text: n.to_string(),
        }),
        serde_json::Value::String(s) => Json::Str(s.clone()),
        serde_json::Value::Array(items) => Json::Array {
            items: items.iter().map(to_json).collect(),
            text: v.to_string(),
        },
        serde_json::Value::Object(map) => Json::Object {
            entries: map.iter().map(|(k, x)| (k.clone(), to_json(x))).collect(),
            text: v.to_string(),
        },
    }
}

fn load(text: &str) -> Result<BridgeConfig, ConfigError> {
    BridgeConfig::from_json_value(&to_json(&serde_json::from_str::<serde_json::Value>(text).unwrap()))
}

fn invalid(text: &str) -> String {
    match load(text) {
        Err(ConfigError::Invalid(m)) => m,
        other => panic!("expected an invalid config, got ok={}", other.is_ok()),
    }
}

#[test]
fn minimal_config_gets_defaults() {
    let cfg = load(
        r#"{"vpsWebhookUrl":"http://h/webhook","devices":[{"deviceIp":"10.0.0.2","deviceCode":"GATE","apiKey":"k"}]}"#,
    )
    .unwrap();
    assert_eq!(cfg.bridge_mode, BridgeMode::Pull);
    assert_eq!(cfg.bridge_port, 7431);
    assert_eq!(cfg.job_poll_interval_seconds, 30);
    assert_eq!(cfg.update_check_interval_hours, 6);
    assert!(!cfg.auto_update);
    assert!(cfg.hrms_base_url.is_none());
    assert_eq!(cfg.devices.len(), 1);
    let d = &cfg.devices[0];
    assert_eq!(d.device_port, 4370);
    assert_eq!(d.device_timeout, 15);
    assert!(d.device_omit_ping);
    assert!(!d.device_force_udp);
    assert_eq!(d.organization_id, 1);
    assert_eq!(d.sync_interval_seconds, 300);
    assert!(!d.clear_attendance_after_sync);
}

#[test]
fn legacy_flat_device_and_normalized_values() {
    let cfg = load(
        r#"{"vpsWebhookUrl":"https://h/webhook","deviceIp":"10.0.0.3","deviceCode":"OLD","apiKey":"k",
            "hrmsBaseUrl":"http://h/api//","jobPollIntervalSeconds":1,"updateCheckIntervalHours":0,
            "port":9000,"syncIntervalSeconds":2}"#,
    )
    .unwrap();
    assert_eq!(cfg.devices.len(), 1);
    assert_eq!(cfg.devices[0].device_code, "OLD");
    assert_eq!(cfg.devices[0].sync_interval_seconds, 5);
    assert_eq!(cfg.hrms_base_url.as_deref(), Some("http://h/api"));
    assert_eq!(cfg.job_poll_interval_seconds, 5);
    assert_eq!(cfg.update_check_interval_hours, 1);
    assert_eq!(cfg.bridge_port, 9000);
}

#[test]
fn invalid_configs_say_why() {
    assert_eq!(invalid("[]"), "config must be a JSON object");
    assert_eq!(invalid("{}"), "config: missing required key: vpsWebhookUrl");
    assert_eq!(invalid(r#"{"vpsWebhookUrl":"ftp://h"}"#), "vpsWebhookUrl must use http:// or https://");
    assert_eq!(
        invalid(r#"{"vpsWebhookUrl":"http://h/w"}"#),
        "devices must be a non-empty array when bridgeMode is pull or hybrid"
    );
    assert_eq!(
        invalid(
            r#"{"vpsWebhookUrl":"http://h/w","devices":[
                {"deviceIp":"1.1.1.1","deviceCode":"A","apiKey":"k"},
                {"deviceIp":"1.1.1.2","deviceCode":"A","apiKey":"k"}]}"#
        ),
        "duplicate deviceCode 'A' in devices array"
    );
    assert_eq!(
        invalid(r#"{"vpsWebhookUrl":"http://h/w","devices":[{"deviceIp":"1.1.1.1","deviceCode":"A","apiKey":"k","deviceTimeout":0}]}"#),
        "devices[0]: deviceTimeout must be between 1 and 120"
    );
}

#[test]
fn errors_and_secrets_print_safely() {
    assert_eq!(ConfigError::NotFound("/c.json".into()).message(), "config file not found at /c.json");
    assert_eq!(ConfigError::Invalid("x".into()).message(), "config value is invalid: x");
    assert_eq!(redact(""), "");
    assert_eq!(redact("secret"), "***");
}
