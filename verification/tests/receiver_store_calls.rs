use std::cell::RefCell;

use zkteco_bridge::config::SenseFaceConfig;
use zkteco_bridge::ports::SenseFaceStore;
use zkteco_bridge::receiver::SenseFaceReceiver;
use zkteco_bridge::senseface::{PendingForwardAttendance, SenseFaceAttendance, SenseFaceUser};

#[derive(Default)]
struct RecordingStore {
    calls: RefCell<Vec<String>>,
}

impl SenseFaceStore for RecordingStore {
    fn upsert_device(&self, serial: &str, ip: &str) -> Result<(), String> {
        self.calls.borrow_mut().push(format!("device {serial} {ip}"));
        Ok(())
    }

    fn save_raw_request(&self, _hash: &str, serial: &str, table: &str, _query: &str, _body: &[u8]) -> Result<bool, String> {
        self.calls.borrow_mut().push(format!("raw {serial} {table}"));
        Ok(true)
    }

    fn save_attendance(&self, serial: &str, records: &[SenseFaceAttendance]) -> Result<usize, String> {
        self.calls.borrow_mut().push(format!("save {serial} {}", records[0].employee_id));
        Ok(1)
    }

    fn upsert_employee(&self, serial: &str, employee: &SenseFaceUser) -> Result<(), String> {
        self.calls.borrow_mut().push(format!("employee {serial} {}", employee.employee_id));
        Ok(())
    }

    fn get_pending_forward_attendance(&self, limit: usize) -> Result<Vec<PendingForwardAttendance>, String> {
        self.calls.borrow_mut().push(format!("pending {limit}"));
        Ok(Vec::new())
    }

    fn mark_attendance_forwarded(&self, _ids: &[i64]) -> Result<(), String> {
        Ok(())
    }

    fn count_missing_employees(&self, serial: &str) -> Result<usize, String> {
        self.calls.borrow_mut().push(format!("missing {serial}"));
        Ok(0)
    }
}

struct Shared(std::rc::Rc<RecordingStore>);

impl SenseFaceStore for Shared {
    fn upsert_device(&self, s: &str, ip: &str) -> Result<(), String> {
        self.0.upsert_device(s, ip)
    }
    fn save_raw_request(&self, h: &str, s: &str, t: &str, q: &str, b: &[u8]) -> Result<bool, String> {
        self.0.save_raw_request(h, s, t, q, b)
    }
    fn save_attendance(&self, s: &str, r: &[SenseFaceAttendance]) -> Result<usize, String> {
        self.0.save_attendance(s, r)
    }
    fn upsert_employee(&self, s: &str, e: &SenseFaceUser) -> Result<(), String> {
        self.0.upsert_employee(s, e)
    }
    fn get_pending_forward_attendance(&self, l: usize) -> Result<Vec<PendingForwardAttendance>, String> {
        self.0.get_pending_forward_attendance(l)
    }
    fn mark_attendance_forwarded(&self, ids: &[i64]) -> Result<(), String> {
        self.0.mark_attendance_forwarded(ids)
    }
    fn count_missing_employees(&self, s: &str) -> Result<usize, String> {
        self.0.count_missing_employees(s)
    }
}

fn config() -> SenseFaceConfig {
    SenseFaceConfig {
        enabled: true,
        bind_host: "0.0.0.0".into(),
        port: 8090,
        timezone: "+06:00".into(),
        device_code_prefix: "SF".into(),
        api_key: "k".into(),
        organization_id: 1,
        forward_interval_seconds: 30,
        devices: Vec::new(),
    }
}

#[test]
fn getrequest_asks_for_the_requesting_serial() {
    let store = std::rc::Rc::new(RecordingStore::default());
    let mut receiver = SenseFaceReceiver::new(Box::new(Shared(store.clone())), config());
    let answer = receiver.respond("GET", "/iclock/getrequest?SN=ABC123", b"", "10.0.0.5", "2026-01-01 00:00:00", 0);
    assert!(answer.starts_with("HTTP/1.1 200"));
    assert_eq!(*store.calls.borrow(), vec!["missing ABC123".to_string()]);
}

#[test]
fn a_push_stores_raw_request_device_records_and_employees_in_order() {
    let store = std::rc::Rc::new(RecordingStore::default());
    let mut receiver = SenseFaceReceiver::new(Box::new(Shared(store.clone())), config());
    let body = b"7\t2026-01-02 08:00:00\t0\t1\t0\t0\nUSER PIN=9\tName=Ann\n";
    let answer =
        receiver.respond("POST", "/iclock/cdata?SN=ABC123&table=ATTLOG", body, "10.0.0.5", "2026-01-01 00:00:00", 0);
    assert!(answer.contains("OK: 1"));
    assert_eq!(
        *store.calls.borrow(),
        vec![
            "raw ABC123 ATTLOG".to_string(),
            "device ABC123 10.0.0.5".to_string(),
            "save ABC123 7".to_string(),
            "employee ABC123 7".to_string(),
            "employee ABC123 7".to_string(),
            "employee ABC123 9".to_string(),
        ]
    );
}
