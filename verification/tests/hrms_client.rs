use zkteco_bridge::hrms::{
    batches, classify_reply, jitter, jitter_from_nanos, parse_org_timezone, parse_received, retry_after,
    retry_delay_ms, should_retry_status, truncate_error, JobCompletion, ParsedHttpUrl, PostOutcome,
};
use zkteco_bridge::json::{Json, JsonNumber};

fn to_json(v: &serde_json::Value) -> Json {
    match v {
        serde_json::Value::Null => Json::Null,
        serde_json::Value::Bool(b) => Json::Bool(*b),
        serde_json::Value::Number(n) => Json::Number(JsonNumber {
            as_u64: n.as_u64(),
            as_i64: n.as_i64(),
            text: n.to_string(),
        }),
        serde_json::Value::String(s) => Json::Str(s.clone()),
        serde_json::Value::Array(items) => Json::Array {
            items: items.iter().map(to_json).collect(),
            text: v.to_string(),
        },
        serde_json::Value::Object(map) => Json::Object {
            entries: map.iter().map(|(k, x)| (k.clone(), to_json(x))).collect(),
            text: v.to_string(),
        },
    }
}

fn parse(text: &str) -> Json {
    to_json(&serde_json::from_str::<serde_json::Value>(text).expect("json"))
}

#[test]
fn retry_policy_matches_python_bridge() {
    assert!(should_retry_status(429));
    assert!(should_retry_status(500));
    assert!(should_retry_status(503));
    assert!(!should_retry_status(400));
    assert!(!should_retry_status(401));
    assert!(!should_retry_status(404));
    assert!(!should_retry_status(200));
}

#[test]
fn parses_final_hrms_response_envelope() {
    let received = parse_received(&parse(r#"{"statusCode":200,"message":"Success","data":{"received":2}}"#), 99)
        .expect("parse received");
    assert_eq!(received, 2);
}

#[test]
fn parses_legacy_mock_response_shape() {
    let received = parse_received(&parse(r#"{"ok":true}"#), 3).expect("parse mock response");
    assert_eq!(received, 3);
}

#[test]
fn http_url_parser_handles_host_port_and_path() {
    let parsed = ParsedHttpUrl::parse("http://127.0.0.1:18800/webhook").expect("parse mock URL");
    assert_eq!(parsed.host, "127.0.0.1");
    assert_eq!(parsed.port, 18800);
    assert_eq!(parsed.path, "/webhook");
    assert_eq!(parsed.host_header(), "127.0.0.1:18800");
}

#[test]
fn http_url_parser_rejects_https_for_blocking_mock_client() {
    assert!(ParsedHttpUrl::parse("https://example.test/webhook").is_err());
}

#[test]
fn jitter_is_bounded() {
    for max in [0u64, 1, 100, 500, 1000] {
        let j = jitter(max);
        assert!(j < max.max(1), "jitter({max}) = {j} should be < max");
    }
}

#[test]
fn jitter_zero_max_returns_zero() {
    assert_eq!(jitter(0), 0);
}

#[test]
fn retry_policy_matches_bridge_contract() {
    assert!(should_retry_status(429));
    assert!(should_retry_status(500));
    assert!(should_retry_status(599));
    assert!(!should_retry_status(400));
    assert!(!should_retry_status(401));
    assert!(!should_retry_status(404));
}

#[test]
fn parses_final_hrms_envelope() {
    let value = parse(r#"{"statusCode":200,"message":"Success","data":{"received":7}}"#);
    assert_eq!(parse_received(&value, 99).expect("received"), 7);
}

#[test]
fn parses_mock_ok_response() {
    assert_eq!(parse_received(&parse(r#"{"ok":true}"#), 3).expect("received"), 3);
}

#[test]
fn job_completion_error_is_truncated() {
    let completion = JobCompletion::error("x".repeat(400));
    assert!(!completion.ok);
    assert_eq!(completion.error.expect("error").len(), 300);
}

#[test]
fn flat_received_counts_when_nothing_is_nested() {
    assert_eq!(parse_received(&parse(r#"{"received":4,"data":{}}"#), 9).unwrap(), 4);
    assert_eq!(parse_received(&parse(r#"{"data":{"received":"x"},"received":5}"#), 9).unwrap(), 5);
}

#[test]
fn org_timezone_prefers_the_envelope() {
    let v = parse(r#"{"data":{"orgTimezone":"Asia/Dhaka"},"orgTimezone":"UTC"}"#);
    assert_eq!(parse_org_timezone(&v).as_deref(), Some("Asia/Dhaka"));
    let flat = parse(r#"{"orgTimezone":"UTC"}"#);
    assert_eq!(parse_org_timezone(&flat).as_deref(), Some("UTC"));
    assert_eq!(parse_org_timezone(&parse(r#"{"orgTimezone":5}"#)), None);
}

#[test]
fn retry_schedule_grows_and_stops_after_three_attempts() {
    assert!(retry_after(1, true));
    assert!(retry_after(3, true));
    assert!(!retry_after(4, true));
    assert!(!retry_after(1, false));
    assert_eq!(retry_delay_ms(1, 0), 2000);
    assert_eq!(retry_delay_ms(3, 499), 6499);
    assert_eq!(jitter_from_nanos(1_234_567, 500), 1_234_567 % 500);
}

#[test]
fn replies_are_classified_by_status() {
    match classify_reply("webhook", 201, "{}") {
        PostOutcome::Success(b) => assert_eq!(b, "{}"),
        _ => panic!("2xx must succeed"),
    }
    match classify_reply("webhook", 503, "busy") {
        PostOutcome::Retryable(m) => assert_eq!(m, "webhook HTTP 503: busy"),
        _ => panic!("503 is retryable"),
    }
    let long = "b".repeat(400);
    match classify_reply("pending jobs", 404, &long) {
        PostOutcome::Fatal(m) => assert_eq!(m, format!("pending jobs HTTP 404: {}", "b".repeat(300))),
        _ => panic!("404 is fatal"),
    }
}

#[test]
fn events_are_sent_in_batches_of_five_hundred() {
    assert_eq!(batches(0), vec![]);
    assert_eq!(batches(500), vec![(0, 500)]);
    assert_eq!(batches(1201), vec![(0, 500), (500, 1000), (1000, 1201)]);
}

#[test]
fn error_truncation_keeps_whole_characters() {
    let s = format!("{}é", "a".repeat(299));
    assert_eq!(truncate_error(s), "a".repeat(299));
    assert_eq!(truncate_error("short".to_string()), "short");
}
