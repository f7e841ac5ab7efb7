//! Diagnostics: the readiness report, each device's checks and the next
//! steps suggested from them. Probing devices, the webhook and the port
//! stays with the caller, which hands in what it found.

use vstd::prelude::*;

use crate::config::{BridgeConfig, BridgeDeviceConfig};
use crate::text::{push_str, str_eq};

verus! {

/// The outcome of one live check.
#[derive(Debug, Clone)]
pub struct CheckResult {
    pub ok: bool,
    pub message: String,
}

impl CheckResult {
    pub fn ok() -> (r: Self)
        ensures
            r.ok,
            r.message@ == "ok"@,
    {
        CheckResult { ok: true, message: String::from_str("ok") }
    }

    pub fn fail(message: String) -> (r: Self)
        ensures
            !r.ok,
            r.message@ == message@,
    {
        CheckResult { ok: false, message }
    }

    /// The check of an outcome: passed, or failed with its error.
    pub fn from_outcome(outcome: Result<(), String>) -> (r: Self)
        ensures
            match outcome {
                Ok(()) => r.ok && r.message@ == "ok"@,
                Err(e) => !r.ok && r.message@ == e@,
            },
    {
        match outcome {
            Ok(()) => CheckResult::ok(),
            Err(e) => CheckResult::fail(e),
        }
    }
}

/// Whether a check reports an outcome: passed with `ok`, or failed with
/// the error.
pub open spec fn reports(c: CheckResult, outcome: Result<(), String>) -> bool {
    match outcome {
        Ok(()) => c.ok && c.message@ == "ok"@,
        Err(e) => !c.ok && c.message@ == e@,
    }
}

/// One device's part of the report.
#[derive(Debug, Clone)]
pub struct DeviceDoctorReport {
    pub device_code: String,
    pub device_ip: String,
    pub device_port: u16,
    pub sync_interval_seconds: u64,
    pub clear_attendance_after_sync: bool,
    pub device_connection: Option<CheckResult>,
    pub webhook: Option<CheckResult>,
}

/// The report of a device from its configuration and, with `--deep`, the
/// outcomes of connecting to it and of an empty webhook delivery.
pub fn device_report(
    device: &BridgeDeviceConfig,
    connection: Option<Result<(), String>>,
    webhook: Option<Result<(), String>>,
) -> (r: DeviceDoctorReport)
    ensures
        r.device_code@ == device.device_code@,
        r.device_ip@ == device.device_ip@,
        r.device_port == device.device_port,
        r.sync_interval_seconds == device.sync_interval_seconds,
        r.clear_attendance_after_sync == device.clear_attendance_after_sync,
        r.device_connection is Some <==> connection is Some,
        r.webhook is Some <==> webhook is Some,
        connection matches Some(o) ==> reports(r.device_connection->0, o),
        webhook matches Some(o) ==> reports(r.webhook->0, o),
{
    DeviceDoctorReport {
        device_code: device.device_code.clone(),
        device_ip: device.device_ip.clone(),
        device_port: device.device_port,
        sync_interval_seconds: device.sync_interval_seconds,
        clear_attendance_after_sync: device.clear_attendance_after_sync,
        device_connection: match connection {
            Some(o) => Some(CheckResult::from_outcome(o)),
            None => None,
        },
        webhook: match webhook {
            Some(o) => Some(CheckResult::from_outcome(o)),
            None => None,
        },
    }
}

/// The readiness report.
#[derive(Debug, Clone)]
pub struct DoctorReport {
    pub agent: String,
    pub version: String,
    pub runtime: String,
    pub executable_path: String,
    pub config_path: String,
    pub config_exists: bool,
    pub config_valid: bool,
    pub config_error: Option<String>,
    pub log_dir: String,
    pub log_dir_exists: bool,
    pub bridge_port_available: Option<bool>,
    pub device_count: usize,
    pub job_polling_enabled: bool,
    pub service_status: String,
    pub devices: Vec<DeviceDoctorReport>,
    pub next_steps: Vec<String>,
}

/// What to do next: set up, fix the config, or run the deeper checks and a
/// sync.
pub open spec fn next_steps_text(config_exists: bool, config_valid: bool) -> Seq<Seq<char>> {
    if !config_exists {
        seq!["fbsy setup"@]
    } else if !config_valid {
        seq!["fix config.json and run fbsy config validate"@]
    } else {
        seq!["fbsy doctor --deep"@, "fbsy once --device <DEVICE_CODE>"@, "fbsy serve"@]
    }
}

pub fn next_steps(config_exists: bool, config_valid: bool) -> (r: Vec<String>)
    ensures
        r@.map_values(|s: String| s@) == next_steps_text(config_exists, config_valid),
{
    let mut r: Vec<String> = Vec::new();
    if !config_exists {
        r.push(String::from_str("fbsy setup"));
    } else if !config_valid {
        r.push(String::from_str("fix config.json and run fbsy config validate"));
    } else {
        r.push(String::from_str("fbsy doctor --deep"));
        r.push(String::from_str("fbsy once --device <DEVICE_CODE>"));
        r.push(String::from_str("fbsy serve"));
    }
    assert(r@.map_values(|s: String| s@) =~= next_steps_text(config_exists, config_valid));
    r
}

/// What the caller found on this machine.
pub struct MachineFacts {
    pub executable_path: String,
    pub config_path: String,
    pub config_exists: bool,
    pub log_dir: String,
    pub log_dir_exists: bool,
}

/// Assembles the report: from the configuration when it loaded (with the
/// port check and the device reports), else with its error.
pub fn build_report(
    facts: MachineFacts,
    config: Result<&BridgeConfig, String>,
    port_available: bool,
    devices: Vec<DeviceDoctorReport>,
) -> (r: DoctorReport)
    ensures
        r.agent@ == "fingerbridge"@,
        r.version@ == crate::update::version_text(),
        r.runtime@ == "rust"@,
        r.executable_path == facts.executable_path,
        r.config_path == facts.config_path,
        r.config_exists == facts.config_exists,
        r.log_dir == facts.log_dir,
        r.log_dir_exists == facts.log_dir_exists,
        r.config_valid == (config is Ok),
        match config {
            Ok(cfg) => {
                &&& r.config_error is None
                &&& r.device_count == cfg.devices@.len()
                &&& r.job_polling_enabled == (cfg.hrms_base_url is Some)
                &&& r.bridge_port_available == Some(port_available)
                &&& r.devices@ == devices@
            },
            Err(e) => {
                &&& r.config_error matches Some(m) && m@ == e@
                &&& r.device_count == 0
                &&& !r.job_polling_enabled
                &&& r.bridge_port_available is None
                &&& r.devices@.len() == 0
            },
        },
        r.service_status@ == "not implemented"@,
        r.next_steps@.map_values(|s: String| s@) == next_steps_text(facts.config_exists, config is Ok),
{
    let valid = config.is_ok();
    let steps = next_steps(facts.config_exists, valid);
    let (config_error, device_count, job_polling_enabled, bridge_port_available, devices) = match config {
        Ok(cfg) => (None, cfg.devices.len(), cfg.hrms_base_url.is_some(), Some(port_available), devices),
        Err(e) => (Some(e), 0, false, None, Vec::new()),
    };
    DoctorReport {
        agent: String::from_str("fingerbridge"),
        version: String::from_str(crate::update::current_version()),
        runtime: String::from_str("rust"),
        executable_path: facts.executable_path,
        config_path: facts.config_path,
        config_exists: facts.config_exists,
        config_valid: valid,
        config_error,
        log_dir: facts.log_dir,
        log_dir_exists: facts.log_dir_exists,
        bridge_port_available,
        device_count,
        job_polling_enabled,
        service_status: String::from_str("not implemented"),
        devices,
        next_steps: steps,
    }
}

/// The device codes joined with `, `.
pub open spec fn joined_codes(ds: Seq<BridgeDeviceConfig>) -> Seq<char>
    decreases ds.len(),
{
    if ds.len() == 0 {
        seq![]
    } else if ds.len() == 1 {
        ds[0].device_code@
    } else {
        joined_codes(ds.drop_last()) + ", "@ + ds.last().device_code@
    }
}

/// The first device with this code.
pub open spec fn first_with_code(ds: Seq<BridgeDeviceConfig>, code: Seq<char>) -> Option<int>
    decreases ds.len(),
{
    if ds.len() == 0 {
        None
    } else if ds[0].device_code@ == code {
        Some(0)
    } else {
        match first_with_code(ds.drop_first(), code) {
            Some(i) => Some(i + 1),
            None => None,
        }
    }
}

/// Finds a configured device by code; the error lists the codes there are.
pub fn find_device(cfg: &BridgeConfig, code: &str) -> (r: Result<usize, String>)
    ensures
        match r {
            Ok(i) => first_with_code(cfg.devices@, code@) == Some(i as int) && i < cfg.devices@.len(),
            Err(m) => first_with_code(cfg.devices@, code@) is None && m@ == "device '"@ + code@
                + "' not found. Available: "@ + joined_codes(cfg.devices@),
        },
{
    let ds = &cfg.devices;
    let mut i: usize = 0;
    assert(ds@.skip(0) =~= ds@);
    while i < ds.len()
        invariant
            i <= ds.len(),
            ds@ == cfg.devices@,
            first_with_code(ds@, code@) == match first_with_code(ds@.skip(i as int), code@) {
                Some(k) => Some(k + i),
                None => None,
            },
        decreases ds.len() - i,
    {
        assert(ds@.skip(i as int)[0] == ds@[i as int]);
        assert(ds@.skip(i as int).drop_first() =~= ds@.skip(i + 1));
        if str_eq(ds[i].device_code.as_str(), code) {
            return Ok(i);
        }
        i += 1;
    }
    let mut m = String::from_str("device '");
    push_str(&mut m, code);
    push_str(&mut m, "' not found. Available: ");
    if ds.len() > 0 {
        push_str(&mut m, ds[0].device_code.as_str());
        let ghost base = m@;
        assert(ds@.take(1).drop_last() =~= Seq::<BridgeDeviceConfig>::empty());
        let mut k: usize = 1;
        while k < ds.len()
            invariant
                1 <= k <= ds.len(),
                ds@ == cfg.devices@,
                m@ == "device '"@ + code@ + "' not found. Available: "@ + joined_codes(ds@.take(k as int)),
            decreases ds.len() - k,
        {
            push_str(&mut m, ", ");
            push_str(&mut m, ds[k].device_code.as_str());
            assert(ds@.take(k + 1).drop_last() =~= ds@.take(k as int));
            k += 1;
        }
        assert(ds@.take(k as int) =~= ds@);
    }
    Err(m)
}

/// A device field as shown: `-` when empty.
pub open spec fn shown_text(value: Seq<char>) -> Seq<char> {
    if value.len() == 0 {
        "-"@
    } else {
        value
    }
}

pub fn shown(value: &str) -> (r: String)
    ensures
        r@ == shown_text(value@),
{
    if value.is_empty() {
        String::from_str("-")
    } else {
        String::from_str(value)
    }
}

} // verus!
