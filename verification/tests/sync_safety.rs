use std::cell::RefCell;
use std::rc::Rc;

use zkteco_bridge::config::BridgeDeviceConfig;
use zkteco_bridge::domain::{to_hrms_events, DeviceUser, EventTypeMode, FingerTemplate, HrmsEvent, RawAttendance};
use zkteco_bridge::ports::{DeviceClient, DeviceConnector, DeviceError, HrmsClient, HrmsError, WebhookResult};
use zkteco_bridge::sync::{sanitize, select_targets, DeviceSyncState};

fn device(code: &str, clear: bool) -> BridgeDeviceConfig {
    BridgeDeviceConfig {
        device_ip: "127.0.0.1".into(),
        device_port: 4370,
        device_password: 0,
        device_timeout: 15,
        device_force_udp: false,
        device_omit_ping: true,
        device_timezone: None,
        device_code: code.into(),
        api_key: "secret-key".into(),
        organization_id: 1,
        sync_interval_seconds: 300,
        clear_attendance_after_sync: clear,
        clear_attendance_threshold: None,
    }
}

#[derive(Clone)]
struct Device {
    records: Vec<RawAttendance>,
    cleared: Rc<RefCell<bool>>,
}

impl DeviceConnector for Device {
    fn connect(&self, _cfg: &BridgeDeviceConfig) -> Result<Box<dyn DeviceClient>, DeviceError> {
        Ok(Box::new(self.clone()))
    }
}

impl DeviceClient for Device {
    fn pull_attendance(&mut self) -> Result<Vec<RawAttendance>, DeviceError> {
        Ok(self.records.clone())
    }
    fn clear_attendance(&mut self) -> Result<(), DeviceError> {
        *self.cleared.borrow_mut() = true;
        Ok(())
    }
    fn get_templates(&mut self) -> Result<Vec<FingerTemplate>, DeviceError> {
        Ok(Vec::new())
    }
    fn push_user_template(&mut self, _u: &DeviceUser, _f: &FingerTemplate) -> Result<(), DeviceError> {
        Ok(())
    }
    fn disconnect(&mut self) {}
}

struct Hrms {
    fail: bool,
}

impl HrmsClient for Hrms {
    fn forward_events(&self, _url: &str, _d: &BridgeDeviceConfig, events: &[HrmsEvent]) -> Result<WebhookResult, HrmsError> {
        if self.fail {
            Err(HrmsError::Message("webhook HTTP 500: down, api_key secret-key".into()))
        } else {
            Ok(WebhookResult { received: events.len() })
        }
    }
}

fn record(user: &str, ts: &str, punch: i64) -> RawAttendance {
    RawAttendance { user_id: user.into(), timestamp: ts.into(), punch }
}

#[test]
fn device_is_cleared_only_after_a_successful_upload() {
    let cleared = Rc::new(RefCell::new(false));
    let dev = Device { records: vec![record("7", "2026-01-02 08:00:00", 0)], cleared: cleared.clone() };
    let mut state = DeviceSyncState::new(device("GATE-01", true), "http://x/webhook".into(), Box::new(dev), Box::new(Hrms { fail: false }));
    let r = state.sync_once("2026-01-02T08:05:00+00:00".into());
    assert!(r.ok);
    assert_eq!(r.pulled, 1);
    assert_eq!(r.forwarded, 1);
    assert!(r.device_attendance_cleared);
    assert!(*cleared.borrow());
}

#[test]
fn failed_upload_never_clears_and_hides_secrets() {
    let cleared = Rc::new(RefCell::new(false));
    let dev = Device { records: vec![record("7", "2026-01-02 08:00:00", 0)], cleared: cleared.clone() };
    let mut state = DeviceSyncState::new(device("GATE-01", true), "http://x/webhook".into(), Box::new(dev), Box::new(Hrms { fail: true }));
    let r = state.sync_once("t0".into());
    assert!(!r.ok);
    assert!(!r.device_attendance_cleared);
    assert!(!*cleared.borrow());
    assert!(!r.message.contains("secret-key"));
    assert_eq!(state.last_result().map(|x| x.ok), Some(false));
}

#[test]
fn empty_device_forwards_nothing() {
    let cleared = Rc::new(RefCell::new(false));
    let dev = Device { records: vec![], cleared: cleared.clone() };
    let mut state = DeviceSyncState::new(device("GATE-01", true), "u".into(), Box::new(dev), Box::new(Hrms { fail: true }));
    let r = state.sync_once("t".into());
    assert_eq!(r.pulled, 0);
    assert_eq!(r.forwarded, 0);
    assert!(!r.device_attendance_cleared);
    assert_eq!(r.device_code, "GATE-01");
    assert_eq!(r.started_at, "t");
}

#[test]
fn sanitizing_masks_keys_and_caps_length() {
    let d = device("GATE-01", false);
    assert_eq!(sanitize("bad key secret-key for GATE-01", &d), "bad key *** for ***");
    let long = "x".repeat(250);
    let s = sanitize(&long, &d);
    assert_eq!(s, format!("{}...", "x".repeat(200)));
}

#[test]
fn sync_targets_select_by_code() {
    let ds = vec![device("A", false), device("B", false), device("A", false)];
    assert_eq!(select_targets(&ds, None).unwrap(), vec![0, 1, 2]);
    assert_eq!(select_targets(&ds, Some("A")).unwrap(), vec![0, 2]);
    assert_eq!(select_targets(&ds, Some("Z")).unwrap_err(), "device 'Z' not found in config. Available: A, B, A");
}

#[test]
fn hrms_events_are_sorted_and_typed_by_punch() {
    let rs = vec![record("2", "2026-01-02 09:00:00", 1), record("1", "2026-01-02 08:00:00", 0)];
    let ev = to_hrms_events(&rs, 6 * 3600, EventTypeMode::PunchCode);
    assert_eq!(ev.len(), 2);
    assert_eq!(ev[0].device_employee_id, "1");
    assert_eq!(ev[0].timestamp, "2026-01-02T08:00:00+06:00");
    assert_eq!(ev[0].event_type, "check_in");
    assert_eq!(ev[1].event_type, "check_out");
}

#[test]
fn first_in_last_out_ignores_punch_codes() {
    let rs = vec![
        record("1", "2026-01-02 08:00:00", 1),
        record("1", "2026-01-02 12:00:00", 0),
        record("1", "2026-01-02 17:00:00", 0),
    ];
    let ev = to_hrms_events(&rs, 0, EventTypeMode::FirstInLastOut);
    let kinds: Vec<&str> = ev.iter().map(|e| e.event_type.as_str()).collect();
    assert_eq!(kinds, ["check_in", "check_out", "check_out"]);
}
