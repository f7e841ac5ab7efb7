use zkteco_bridge::setup::{
    api_token_value, default_hrms_base_url, default_webhook_url, device_timeout_ok, device_timezone_value,
    interval_ok, mock_api_key, mock_device_code, required_ok, timezone_answer_ok, url_answer_ok,
};

#[test]
fn mock_defaults_are_predictable_for_setup() {
    assert_eq!(mock_device_code(1), "MOCK-GATE-01");
    assert_eq!(mock_device_code(2), "MOCK-GATE-02");
    assert_eq!(mock_api_key(1), "mock-key");
    assert_eq!(mock_api_key(2), "mock-key-02");
}

#[test]
fn wizard_answers_are_checked() {
    assert!(url_answer_ok("  https://x.test/hook "));
    assert!(!url_answer_ok("ftp://x"));
    assert!(device_timeout_ok(1) && device_timeout_ok(120));
    assert!(!device_timeout_ok(0) && !device_timeout_ok(121));
    assert!(interval_ok(5) && !interval_ok(4));
    assert!(!required_ok("   "));
    assert!(timezone_answer_ok("+06:00") && timezone_answer_ok("utc"));
    assert!(!timezone_answer_ok("Mars"));
}

#[test]
fn wizard_answers_become_config_values() {
    assert_eq!(device_timezone_value(" UTC "), None);
    assert_eq!(device_timezone_value(""), None);
    assert_eq!(device_timezone_value(" +06:00 ").as_deref(), Some("+06:00"));
    assert_eq!(api_token_value("  "), None);
    assert_eq!(api_token_value(" tok ").as_deref(), Some("tok"));
    assert_eq!(default_webhook_url("10.0.0.2"), "http://10.0.0.2:8800/webhook");
    assert_eq!(default_hrms_base_url("10.0.0.2"), "http://10.0.0.2:8800/api/v1");
    assert_eq!(mock_device_code(123), "MOCK-GATE-123");
}
