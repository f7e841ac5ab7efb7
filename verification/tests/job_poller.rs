use std::cell::RefCell;
use std::rc::Rc;

use zkteco_bridge::config::{BridgeConfig, BridgeDeviceConfig};
use zkteco_bridge::domain::{DeviceUser, FingerTemplate, RawAttendance};
use zkteco_bridge::jobs::{execute_job, job_outcome, job_poll_token, parse_jobs_response, payload_from_json, JobTrace, PendingJob};
use zkteco_bridge::json::{Json, JsonNumber};
use zkteco_bridge::ports::{DeviceClient, DeviceConnector, DeviceError};

fn to_json(v: &serde_json::Value) -> Json {
    match v {
        serde_json::Value::Null => Json::Null,
        serde_json::Value::Bool(b) => Json::Bool(*b),
        serde_json::Value::Number(n) => Json::Number(JsonNumber {
            as_u64: n.as_u64(),
            as_i64: n.as_i64(),
            text: n.to_string(),
        }),
        serde_json::Value::String(s) => Json::Str(s.clone()),
        serde_json::Value::Array(items) => Json::Array {
            items: items.iter().map(to_json).collect(),
            text: v.to_string(),
        },
        serde_json::Value::Object(map) => Json::Object {
            entries: map.iter().map(|(k, x)| (k.clone(), to_json(x))).collect(),
            text: v.to_string(),
        },
    }
}

fn parse(text: &str) -> Json {
    to_json(&serde_json::from_str::<serde_json::Value>(text).expect("json"))
}

fn test_device() -> BridgeDeviceConfig {
    BridgeDeviceConfig {
        device_ip: "127.0.0.1".to_string(),
        device_port: 4370,
        device_password: 0,
        device_timeout: 15,
        device_force_udp: false,
        device_omit_ping: true,
        device_timezone: None,
        device_code: "GATE-01".to_string(),
        api_key: "device-key".to_string(),
        organization_id: 1,
        sync_interval_seconds: 300,
        clear_attendance_after_sync: false,
        clear_attendance_threshold: None,
    }
}

fn devices() -> Vec<BridgeDeviceConfig> {
    vec![test_device()]
}

#[derive(Clone, Default)]
struct FakeConnector {
    templates: Vec<FingerTemplate>,
    pushes: Rc<RefCell<usize>>,
}

impl FakeConnector {
    fn with_templates(templates: Vec<FingerTemplate>) -> Self {
        Self { templates, pushes: Rc::new(RefCell::new(0)) }
    }
}

impl DeviceConnector for FakeConnector {
    fn connect(&self, _cfg: &BridgeDeviceConfig) -> Result<Box<dyn DeviceClient>, DeviceError> {
        Ok(Box::new(FakeClient { templates: self.templates.clone(), pushes: Rc::clone(&self.pushes) }))
    }
}

struct FakeClient {
    templates: Vec<FingerTemplate>,
    pushes: Rc<RefCell<usize>>,
}

impl DeviceClient for FakeClient {
    fn pull_attendance(&mut self) -> Result<Vec<RawAttendance>, DeviceError> {
        Ok(Vec::new())
    }

    fn clear_attendance(&mut self) -> Result<(), DeviceError> {
        Ok(())
    }

    fn get_templates(&mut self) -> Result<Vec<FingerTemplate>, DeviceError> {
        Ok(self.templates.clone())
    }

    fn push_user_template(&mut self, _user: &DeviceUser, _finger: &FingerTemplate) -> Result<(), DeviceError> {
        *self.pushes.borrow_mut() += 1;
        Ok(())
    }

    fn disconnect(&mut self) {}
}

struct RefusingConnector;

impl DeviceConnector for RefusingConnector {
    fn connect(&self, _cfg: &BridgeDeviceConfig) -> Result<Box<dyn DeviceClient>, DeviceError> {
        Err(DeviceError::Message("device connect failed: refused".into()))
    }
}

#[test]
fn unknown_device_job_returns_failure_completion() {
    let completion = execute_job(
        &PendingJob {
            id: "job-1".to_string(),
            job_type: "PUSH_USER".to_string(),
            device_code: "GHOST".to_string(),
            payload: None,
        },
        &devices(),
        &FakeConnector::default(), &mut JobTrace::new()
    );
    assert!(!completion.ok);
    assert!(completion.error.expect("error").contains("not configured"));
}

#[test]
fn pull_templates_returns_templates_from_device() {
    let completion = execute_job(
        &PendingJob {
            id: "job-1".to_string(),
            job_type: "PULL_TEMPLATES".to_string(),
            device_code: "GATE-01".to_string(),
            payload: Some(Json::Null),
        },
        &devices(),
        &FakeConnector::with_templates(vec![FingerTemplate {
            uid: 1,
            fid: 0,
            user_id: "001".to_string(),
            name: "Alice".to_string(),
            template: vec![1, 2, 3],
        }]), &mut JobTrace::new()
    );
    assert!(completion.ok);
    assert_eq!(completion.templates.expect("templates").len(), 1);
}

#[test]
fn unknown_job_type_returns_failure_completion() {
    let completion = execute_job(
        &PendingJob {
            id: "job-1".to_string(),
            job_type: "NOPE".to_string(),
            device_code: "GATE-01".to_string(),
            payload: None,
        },
        &devices(),
        &FakeConnector::default(), &mut JobTrace::new()
    );
    assert!(!completion.ok);
    assert!(completion.error.expect("error").contains("unknown job type"));
}

#[test]
fn token_prefers_explicit_hrms_api_token() {
    let cfg = BridgeConfig::from_json_value(&parse(
        r#"{
            "vpsWebhookUrl": "https://example.test/webhook",
            "hrmsBaseUrl": "https://example.test/api/v1",
            "hrmsApiToken": "explicit",
            "devices": [{
                "deviceIp": "127.0.0.1",
                "deviceCode": "GATE-01",
                "apiKey": "device-key"
            }]
        }"#,
    ))
    .expect("config");
    assert_eq!(job_poll_token(&cfg).expect("token"), "explicit");
}

#[test]
fn push_user_validates_payload_and_calls_device() {
    let connector = FakeConnector::default();
    let completion = execute_job(
        &PendingJob {
            id: "job-1".to_string(),
            job_type: "PUSH_USER".to_string(),
            device_code: "GATE-01".to_string(),
            payload: Some(parse(
                r#"{"uid": 1, "fid": 0, "userId": "001", "name": "Alice", "templateBytes": "AQID"}"#,
            )),
        },
        &devices(),
        &connector, &mut JobTrace::new()
    );
    assert!(completion.ok);
    assert_eq!(*connector.pushes.borrow(), 1);
}

#[test]
fn parses_pending_jobs_from_hrms_envelope() {
    let jobs = parse_jobs_response(parse(
        r#"{"statusCode":200,"message":"Success","data":[{"id":"job-1","type":"PUSH_USER","deviceCode":"GATE-01","payload":{"userId":"001"}}]}"#,
    ))
    .expect("parse jobs");
    assert_eq!(jobs.len(), 1);
    assert_eq!(jobs[0].id, "job-1");
    assert_eq!(jobs[0].job_type, "PUSH_USER");
    assert_eq!(jobs[0].device_code, "GATE-01");
}

#[test]
fn job_payload_errors_are_reported_before_contacting_the_device() {
    let job = |payload: Option<Json>| PendingJob {
        id: "j".into(),
        job_type: "PUSH_USER".into(),
        device_code: "GATE-01".into(),
        payload,
    };
    let missing = execute_job(&job(None), &devices(), &RefusingConnector, &mut JobTrace::new());
    assert_eq!(missing.error.as_deref(), Some("PUSH_USER payload is required"));
    let invalid = execute_job(&job(Some(parse(r#"{"fid":0}"#))), &devices(), &RefusingConnector, &mut JobTrace::new());
    assert_eq!(invalid.error.as_deref(), Some("PUSH_USER payload is invalid: missing field `uid`"));
    let bad64 = execute_job(
        &job(Some(parse(r#"{"uid":1,"fid":0,"userId":"1","name":"A","templateBytes":"@@@"}"#))),
        &devices(),
        &RefusingConnector, &mut JobTrace::new()
    );
    assert!(bad64.error.expect("error").starts_with("templateBytes is invalid base64: "));
    let refused = execute_job(
        &job(Some(parse(r#"{"uid":1,"fid":0,"userId":"1","name":"A","templateBytes":"AQID"}"#))),
        &devices(),
        &RefusingConnector, &mut JobTrace::new()
    );
    assert_eq!(refused.error.as_deref(), Some("device connect failed: refused"));
    assert_eq!(job_outcome(&refused), "FAILED: device connect failed: refused");
}

#[test]
fn pending_job_replies_must_hold_a_list_of_jobs() {
    assert!(parse_jobs_response(parse(r#"{"data":{}}"#)).is_err());
    assert!(parse_jobs_response(parse(r#"[{"id":"a","type":"t"}]"#)).is_err());
    let flat = parse_jobs_response(parse(r#"[{"id":"a","type":"t","deviceCode":"d","payload":null}]"#)).unwrap();
    assert!(flat[0].payload.is_none());
    let p = payload_from_json(&parse(r#"{"uid":5,"fid":300,"userId":"1","name":"A","templateBytes":""}"#));
    assert_eq!(p.unwrap_err(), "invalid value for field `fid`");
}
