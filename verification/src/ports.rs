//! Boundaries to the outside world: the device, the HRMS webhook and the
//! SenseFace store. The sync engine talks to these traits; adapters implement
//! them. The traits promise nothing: everything the library proves about a
//! sync holds whatever an adapter returns.

use vstd::prelude::*;

use crate::config::BridgeDeviceConfig;
use crate::domain::{DeviceUser, FingerTemplate, HrmsEvent, RawAttendance};
use crate::senseface::{PendingForwardAttendance, SenseFaceAttendance, SenseFaceUser};

verus! {

/// Errors returned by a device adapter.
#[derive(Debug, Clone, PartialEq, Eq)]
pub enum DeviceError {
    NotImplemented,
    Message(String),
}

/// The text the error prints as.
pub open spec fn device_error_text(e: DeviceError) -> Seq<char> {
    match e {
        DeviceError::NotImplemented => "device protocol is not implemented yet"@,
        DeviceError::Message(m) => m@,
    }
}

impl DeviceError {
    /// The human-readable message of the error.
    pub fn message(&self) -> (s: String)
        ensures
            s@ == device_error_text(*self),
    {
        match self {
            DeviceError::NotImplemented => String::from_str("device protocol is not implemented yet"),
            DeviceError::Message(m) => m.clone(),
        }
    }
}

/// Identity and storage data read live from a device.
#[derive(Debug, Clone, Default)]
pub struct DeviceInfo {
    pub serial: String,
    pub firmware: String,
    pub platform: String,
    pub name: String,
    /// Number of enrolled users.
    pub users: usize,
    /// Number of stored fingerprint templates.
    pub fingers: usize,
    /// Number of attendance records currently on the device.
    pub records: usize,
}

/// Active connection to a ZKTeco-like attendance device.
pub trait DeviceClient {
    /// Pull raw attendance records from the device.
    fn pull_attendance(&mut self) -> Result<Vec<RawAttendance>, DeviceError>;

    /// Clear attendance records after a safe, successful upload.
    fn clear_attendance(&mut self) -> Result<(), DeviceError>;

    /// Pull users and fingerprint templates from the device.
    fn get_templates(&mut self) -> Result<Vec<FingerTemplate>, DeviceError>;

    /// Push one user and one fingerprint template to the device.
    fn push_user_template(&mut self, user: &DeviceUser, finger: &FingerTemplate) -> Result<
        (),
        DeviceError,
    >;

    /// Read identity and storage info from the device.
    fn device_info(&mut self) -> Result<DeviceInfo, DeviceError> {
        Err(DeviceError::NotImplemented)
    }

    /// List enrolled users.
    fn get_users(&mut self) -> Result<Vec<DeviceUser>, DeviceError> {
        Err(DeviceError::NotImplemented)
    }

    /// Close the device connection.
    fn disconnect(&mut self);
}

/// Factory that opens a device connection using validated config.
pub trait DeviceConnector {
    /// Connect to the configured device.
    fn connect(&self, cfg: &BridgeDeviceConfig) -> Result<Box<dyn DeviceClient>, DeviceError>;
}

/// Maximum number of events sent in one webhook request.
pub const BATCH_SIZE: usize = 500;

/// Errors returned by an HRMS adapter.
#[derive(Debug, Clone, PartialEq, Eq)]
pub enum HrmsError {
    NotImplemented,
    Message(String),
}

/// The text the error prints as.
pub open spec fn hrms_error_text(e: HrmsError) -> Seq<char> {
    match e {
        HrmsError::NotImplemented => "HRMS operation is not supported by this adapter"@,
        HrmsError::Message(m) => m@,
    }
}

impl HrmsError {
    /// The human-readable message of the error.
    pub fn message(&self) -> (s: String)
        ensures
            s@ == hrms_error_text(*self),
    {
        match self {
            HrmsError::NotImplemented => String::from_str(
                "HRMS operation is not supported by this adapter",
            ),
            HrmsError::Message(m) => m.clone(),
        }
    }
}

/// Summary returned after forwarding events to HRMS.
#[derive(Debug, Clone, Copy, PartialEq, Eq)]
pub struct WebhookResult {
    /// Number of records accepted by HRMS.
    pub received: usize,
}

/// Sends attendance events to HRMS.
pub trait HrmsClient {
    /// Forward a list of normalized HRMS events.
    fn forward_events(
        &self,
        webhook_url: &str,
        device: &BridgeDeviceConfig,
        events: &[HrmsEvent],
    ) -> Result<WebhookResult, HrmsError>;
}

/// Loads the bridge configuration from where it is kept.
pub trait ConfigStore {
    /// Load and validate the configuration at `path`.
    fn load(&self, path: &str) -> Result<crate::config::BridgeConfig, crate::config::ConfigError>;
}

/// Durable storage for what SenseFace terminals push.
pub trait SenseFaceStore {
    fn upsert_device(&self, serial: &str, ip: &str) -> Result<(), String>;

    fn save_raw_request(
        &self,
        request_hash: &str,
        serial: &str,
        table: &str,
        query: &str,
        body: &[u8],
    ) -> Result<bool, String>;

    fn save_attendance(&self, serial: &str, records: &[SenseFaceAttendance]) -> Result<usize, String>;

    fn save_attendance_record(&self, serial: &str, records: &[SenseFaceAttendance]) -> Result<
        usize,
        String,
    > {
        self.save_attendance(serial, records)
    }

    fn upsert_employee(&self, serial: &str, employee: &SenseFaceUser) -> Result<(), String>;

    fn get_pending_forward_attendance(&self, limit: usize) -> Result<Vec<PendingForwardAttendance>, String>;

    fn mark_attendance_forwarded(&self, ids: &[i64]) -> Result<(), String>;

    fn count_missing_employees(&self, serial: &str) -> Result<usize, String>;
}

} // verus!
