//! Bridge configuration: the typed model of `config.json`, its validation
//! rules and the redacted views that are safe to print.

use vstd::prelude::*;

use crate::domain::{parse_utc_offset, utc_offset_of};
use crate::json::{json_get, json_text, Json};
use crate::json_text::{json_parsed, parse_json_text};
use crate::text::{
    chars_of, dec, eq_str, has_prefix_str, int_text, lower_chars, lower_seq, nat_text,
    parse_i32_chars, parse_u64_chars, push_dec, push_str, slice_chars, starts_with, string_of,
    trim, trim_str,
};

verus! {

// ── Errors ───────────────────────────────────────────────────────────────────

/// Errors returned while loading or validating configuration.
#[derive(Debug, Clone, PartialEq, Eq)]
pub enum ConfigError {
    /// The expected config file does not exist (its path).
    NotFound(String),
    /// The file exists but does not hold valid JSON (the parser's message).
    InvalidJson(String),
    /// The JSON is valid, but a value is not acceptable.
    Invalid(String),
    /// Reading the config file failed at the filesystem level.
    Io(String),
}

/// The text the error prints as.
pub open spec fn config_error_text(e: ConfigError) -> Seq<char> {
    match e {
        ConfigError::NotFound(p) => "config file not found at "@ + p@,
        ConfigError::InvalidJson(m) => "config file is invalid JSON: "@ + m@,
        ConfigError::Invalid(m) => "config value is invalid: "@ + m@,
        ConfigError::Io(m) => "could not read config file: "@ + m@,
    }
}

impl ConfigError {
    /// The human-readable message of the error.
    pub fn message(&self) -> (s: String)
        ensures
            s@ == config_error_text(*self),
    {
        let (head, tail) = match self {
            ConfigError::NotFound(p) => ("config file not found at ", p),
            ConfigError::InvalidJson(m) => ("config file is invalid JSON: ", m),
            ConfigError::Invalid(m) => ("config value is invalid: ", m),
            ConfigError::Io(m) => ("could not read config file: ", m),
        };
        let mut s = String::from_str(head);
        push_str(&mut s, tail.as_str());
        s
    }
}

// ── Redaction ────────────────────────────────────────────────────────────────

/// The printable stand-in for a secret: empty stays empty, anything else is
/// `***`.
pub open spec fn redacted_text(value: Seq<char>) -> Seq<char> {
    if value.len() == 0 {
        ""@
    } else {
        "***"@
    }
}

/// Replace a secret value with a fixed marker before printing/logging.
pub fn redact(value: &str) -> (r: String)
    ensures
        r@ == redacted_text(value@),
{
    if value.is_empty() {
        proof {
            reveal_strlit("");
        }
        return String::new();
    }
    String::from_str("***")
}

// ── Model ────────────────────────────────────────────────────────────────────

/// How the bridge receives attendance.
#[derive(Debug, Clone, Copy, PartialEq, Eq, Structural)]
pub enum BridgeMode {
    /// Pull attendance from classic ZKTeco devices over TCP 4370.
    Pull,
    /// Receive attendance pushed by SenseFace / ADMS terminals over HTTP.
    Push,
    /// Run both pull schedulers and the push receiver in one bridge process.
    Hybrid,
}

/// Runtime configuration for one ZKTeco device.
#[derive(Debug, Clone)]
pub struct BridgeDeviceConfig {
    /// LAN IP address of the device.
    pub device_ip: String,
    /// Device port, normally `4370`.
    pub device_port: u16,
    /// Device communication password/PIN.
    pub device_password: i32,
    /// Connection timeout in seconds.
    pub device_timeout: u64,
    /// Whether the device adapter should force UDP mode.
    pub device_force_udp: bool,
    /// Whether the device adapter should skip ping before connecting.
    pub device_omit_ping: bool,
    /// Timezone the device's naive timestamps are in; `None` means UTC.
    pub device_timezone: Option<String>,
    /// HRMS device identifier used by the webhook.
    pub device_code: String,
    /// Shared webhook secret. Never logged raw.
    pub api_key: String,
    /// HRMS organization identifier.
    pub organization_id: u64,
    /// Background sync interval in seconds.
    pub sync_interval_seconds: u64,
    /// Clear attendance from the device only after a successful upload.
    pub clear_attendance_after_sync: bool,
    /// Clear device attendance when the pulled record count reaches this.
    pub clear_attendance_threshold: Option<u64>,
}

/// Mapping for one SenseFace terminal serial number.
#[derive(Debug, Clone)]
pub struct SenseFaceDeviceConfig {
    pub serial_number: String,
    pub device_code: String,
    pub api_key: String,
    pub organization_id: u64,
}

/// SenseFace / ADMS push receiver configuration.
#[derive(Debug, Clone)]
pub struct SenseFaceConfig {
    /// Start the HTTP receiver inside the bridge service.
    pub enabled: bool,
    /// Bind host for devices to connect to.
    pub bind_host: String,
    /// HTTP port used by the terminal cloud server settings.
    pub port: u16,
    /// Device wall-clock timezone label or fixed offset.
    pub timezone: String,
    /// Default HRMS device code prefix for serials without a mapping.
    pub device_code_prefix: String,
    /// Default HRMS API key for pushed devices.
    pub api_key: String,
    /// Default HRMS organization id for pushed devices.
    pub organization_id: u64,
    /// How often pending pushed attendance is forwarded to HRMS.
    pub forward_interval_seconds: u64,
    /// Explicit serial-number to HRMS device mappings.
    pub devices: Vec<SenseFaceDeviceConfig>,
}

/// Runtime configuration required by the bridge process.
#[derive(Debug, Clone)]
pub struct BridgeConfig {
    /// Whether this bridge works in pull, push, or hybrid mode.
    pub bridge_mode: BridgeMode,
    /// HRMS webhook URL that receives attendance events.
    pub vps_webhook_url: String,
    /// Local HTTP API port.
    pub bridge_port: u16,
    /// Whether the bridge should register itself for OS boot.
    pub auto_start_on_boot: bool,
    /// Optional HRMS API base URL used for job polling.
    pub hrms_base_url: Option<String>,
    /// Optional compatibility token for job polling.
    pub hrms_api_token: Option<String>,
    /// Job polling interval in seconds.
    pub job_poll_interval_seconds: u64,
    /// When true, the running bridge auto-installs newer releases.
    pub auto_update: bool,
    /// How often (hours) the bridge checks for a newer release.
    pub update_check_interval_hours: u64,
    /// The ZKTeco devices managed by this bridge.
    pub devices: Vec<BridgeDeviceConfig>,
    /// Optional SenseFace / ADMS push receiver configuration.
    pub sense_face: Option<SenseFaceConfig>,
}

/// Safe-to-print version of one device config.
#[derive(Debug, Clone)]
pub struct RedactedBridgeDeviceConfig {
    pub device_ip: String,
    pub device_port: u16,
    pub device_timeout: u64,
    pub device_force_udp: bool,
    pub device_omit_ping: bool,
    pub device_timezone: Option<String>,
    pub device_code: String,
    pub api_key: String,
    pub organization_id: u64,
    pub sync_interval_seconds: u64,
    pub clear_attendance_after_sync: bool,
    pub clear_attendance_threshold: Option<u64>,
}

/// Safe-to-print version of one SenseFace device mapping.
#[derive(Debug, Clone)]
pub struct RedactedSenseFaceDeviceConfig {
    pub serial_number: String,
    pub device_code: String,
    pub api_key: String,
    pub organization_id: u64,
}

/// Safe-to-print version of SenseFace config.
#[derive(Debug, Clone)]
pub struct RedactedSenseFaceConfig {
    pub enabled: bool,
    pub bind_host: String,
    pub port: u16,
    pub timezone: String,
    pub device_code_prefix: String,
    pub api_key: String,
    pub organization_id: u64,
    pub forward_interval_seconds: u64,
    pub devices: Vec<RedactedSenseFaceDeviceConfig>,
}

/// Safe-to-print version of `BridgeConfig`.
#[derive(Debug, Clone)]
pub struct RedactedBridgeConfig {
    pub bridge_mode: BridgeMode,
    pub vps_webhook_url: String,
    pub bridge_port: u16,
    pub auto_start_on_boot: bool,
    pub hrms_base_url: Option<String>,
    pub hrms_api_token: Option<String>,
    pub job_poll_interval_seconds: u64,
    pub devices: Vec<RedactedBridgeDeviceConfig>,
    pub sense_face: Option<RedactedSenseFaceConfig>,
}

/// The view of an optional text.
pub open spec fn opt_text(o: Option<String>) -> Option<Seq<char>> {
    match o {
        Some(s) => Some(s@),
        None => None,
    }
}

fn copy_opt(o: &Option<String>) -> (r: Option<String>)
    ensures
        opt_text(r) == opt_text(*o),
{
    match o {
        Some(s) => Some(s.clone()),
        None => None,
    }
}

} // verus!

verus! {

// ── Redacted views ───────────────────────────────────────────────────────────

/// `r` shows `d` with its device code and API key masked.
pub open spec fn device_redacted(r: RedactedBridgeDeviceConfig, d: BridgeDeviceConfig) -> bool {
    &&& r.device_ip@ == d.device_ip@
    &&& r.device_port == d.device_port
    &&& r.device_timeout == d.device_timeout
    &&& r.device_force_udp == d.device_force_udp
    &&& r.device_omit_ping == d.device_omit_ping
    &&& opt_text(r.device_timezone) == opt_text(d.device_timezone)
    &&& r.device_code@ == redacted_text(d.device_code@)
    &&& r.api_key@ == redacted_text(d.api_key@)
    &&& r.organization_id == d.organization_id
    &&& r.sync_interval_seconds == d.sync_interval_seconds
    &&& r.clear_attendance_after_sync == d.clear_attendance_after_sync
    &&& r.clear_attendance_threshold == d.clear_attendance_threshold
}

/// `r` shows `d` with its serial, device code and API key masked.
pub open spec fn sf_device_redacted(r: RedactedSenseFaceDeviceConfig, d: SenseFaceDeviceConfig) -> bool {
    &&& r.serial_number@ == redacted_text(d.serial_number@)
    &&& r.device_code@ == redacted_text(d.device_code@)
    &&& r.api_key@ == redacted_text(d.api_key@)
    &&& r.organization_id == d.organization_id
}

/// `r` shows `c` with its API key and every device mapping masked.
pub open spec fn sense_face_redacted(r: RedactedSenseFaceConfig, c: SenseFaceConfig) -> bool {
    &&& r.enabled == c.enabled
    &&& r.bind_host@ == c.bind_host@
    &&& r.port == c.port
    &&& r.timezone@ == c.timezone@
    &&& r.device_code_prefix@ == c.device_code_prefix@
    &&& r.api_key@ == redacted_text(c.api_key@)
    &&& r.organization_id == c.organization_id
    &&& r.forward_interval_seconds == c.forward_interval_seconds
    &&& r.devices.len() == c.devices.len()
    &&& forall|k: int| 0 <= k < c.devices.len() ==> sf_device_redacted(#[trigger] r.devices@[k], c.devices@[k])
}

impl BridgeDeviceConfig {
    /// A support/debug view that hides device-level secrets.
    pub fn redacted(&self) -> (r: RedactedBridgeDeviceConfig)
        ensures
            device_redacted(r, *self),
    {
        RedactedBridgeDeviceConfig {
            device_ip: self.device_ip.clone(),
            device_port: self.device_port,
            device_timeout: self.device_timeout,
            device_force_udp: self.device_force_udp,
            device_omit_ping: self.device_omit_ping,
            device_timezone: copy_opt(&self.device_timezone),
            device_code: redact(self.device_code.as_str()),
            api_key: redact(self.api_key.as_str()),
            organization_id: self.organization_id,
            sync_interval_seconds: self.sync_interval_seconds,
            clear_attendance_after_sync: self.clear_attendance_after_sync,
            clear_attendance_threshold: self.clear_attendance_threshold,
        }
    }

    /// Fixed UTC offset (seconds east) that this device's naive timestamps
    /// are in: the configured offset, or UTC when none (or an unreadable one)
    /// is set.
    pub fn utc_offset(&self) -> (r: i32)
        ensures
            r == device_offset(*self),
            -86400 < r < 86400,
    {
        match &self.device_timezone {
            Some(t) => {
                proof {
                    crate::domain::lemma_utc_offset_bounded(t@);
                }
                match parse_utc_offset(t.as_str()) {
                    Some(o) => o,
                    None => 0,
                }
            },
            None => 0,
        }
    }
}

/// The offset a device's timestamps are read at.
pub open spec fn device_offset(d: BridgeDeviceConfig) -> int {
    match d.device_timezone {
        Some(t) => match utc_offset_of(t@) {
            Some(o) => o,
            None => 0,
        },
        None => 0,
    }
}

/// A device's records are read at its configured timezone: a fixed offset
/// it can read (`+06:00`, `UTC`, ...) is the offset used, as parsed; with no
/// timezone, or one it cannot read, records are read as UTC.
pub proof fn law_device_offset_is_configured_offset(d: BridgeDeviceConfig)
    ensures
        match d.device_timezone {
            Some(t) => match utc_offset_of(t@) {
                Some(o) => device_offset(d) == o,
                None => device_offset(d) == 0,
            },
            None => device_offset(d) == 0,
        },
{
}

impl SenseFaceDeviceConfig {
    /// Safe-to-print SenseFace device mapping.
    pub fn redacted(&self) -> (r: RedactedSenseFaceDeviceConfig)
        ensures
            sf_device_redacted(r, *self),
    {
        RedactedSenseFaceDeviceConfig {
            serial_number: redact(self.serial_number.as_str()),
            device_code: redact(self.device_code.as_str()),
            api_key: redact(self.api_key.as_str()),
            organization_id: self.organization_id,
        }
    }
}

impl SenseFaceConfig {
    /// Safe-to-print SenseFace config.
    pub fn redacted(&self) -> (r: RedactedSenseFaceConfig)
        ensures
            sense_face_redacted(r, *self),
    {
        let mut devices: Vec<RedactedSenseFaceDeviceConfig> = Vec::new();
        let mut i: usize = 0;
        while i < self.devices.len()
            invariant
                i <= self.devices.len(),
                devices.len() == i,
                forall|k: int| 0 <= k < i ==> sf_device_redacted(#[trigger] devices@[k], self.devices@[k]),
            decreases self.devices.len() - i,
        {
            devices.push(self.devices[i].redacted());
            i += 1;
        }
        RedactedSenseFaceConfig {
            enabled: self.enabled,
            bind_host: self.bind_host.clone(),
            port: self.port,
            timezone: self.timezone.clone(),
            device_code_prefix: self.device_code_prefix.clone(),
            api_key: redact(self.api_key.as_str()),
            organization_id: self.organization_id,
            forward_interval_seconds: self.forward_interval_seconds,
            devices,
        }
    }
}

/// `r` shows `c` with every secret masked.
pub open spec fn config_redacted(r: RedactedBridgeConfig, c: BridgeConfig) -> bool {
    &&& r.bridge_mode == c.bridge_mode
    &&& r.vps_webhook_url@ == c.vps_webhook_url@
    &&& r.bridge_port == c.bridge_port
    &&& r.auto_start_on_boot == c.auto_start_on_boot
    &&& opt_text(r.hrms_base_url) == opt_text(c.hrms_base_url)
    &&& opt_text(r.hrms_api_token) == (match c.hrms_api_token {
        Some(t) => Some(redacted_text(t@)),
        None => None,
    })
    &&& r.job_poll_interval_seconds == c.job_poll_interval_seconds
    &&& r.devices.len() == c.devices.len()
    &&& (forall|k: int| 0 <= k < c.devices.len() ==> device_redacted(#[trigger] r.devices@[k], c.devices@[k]))
    &&& match (r.sense_face, c.sense_face) {
        (Some(rs), Some(cs)) => sense_face_redacted(rs, cs),
        (None, None) => true,
        _ => false,
    }
}

impl BridgeConfig {
    /// A support/debug view that hides secrets.
    pub fn redacted(&self) -> (r: RedactedBridgeConfig)
        ensures
            config_redacted(r, *self),
    {
        let mut devices: Vec<RedactedBridgeDeviceConfig> = Vec::new();
        let mut i: usize = 0;
        while i < self.devices.len()
            invariant
                i <= self.devices.len(),
                devices.len() == i,
                forall|k: int| 0 <= k < i ==> device_redacted(#[trigger] devices@[k], self.devices@[k]),
            decreases self.devices.len() - i,
        {
            devices.push(self.devices[i].redacted());
            i += 1;
        }
        RedactedBridgeConfig {
            bridge_mode: self.bridge_mode,
            vps_webhook_url: self.vps_webhook_url.clone(),
            bridge_port: self.bridge_port,
            auto_start_on_boot: self.auto_start_on_boot,
            hrms_base_url: copy_opt(&self.hrms_base_url),
            hrms_api_token: match &self.hrms_api_token {
                Some(t) => Some(redact(t.as_str())),
                None => None,
            },
            job_poll_interval_seconds: self.job_poll_interval_seconds,
            devices,
            sense_face: match &self.sense_face {
                Some(sf) => Some(sf.redacted()),
                None => None,
            },
        }
    }

    /// True when classic pull-device sync should run.
    pub fn uses_pull(&self) -> (r: bool)
        ensures
            r == (self.bridge_mode == BridgeMode::Pull || self.bridge_mode == BridgeMode::Hybrid),
    {
        match self.bridge_mode {
            BridgeMode::Pull | BridgeMode::Hybrid => true,
            BridgeMode::Push => false,
        }
    }

    /// True when the SenseFace / ADMS push receiver should run.
    pub fn uses_push(&self) -> (r: bool)
        ensures
            r == (self.bridge_mode == BridgeMode::Push || self.bridge_mode == BridgeMode::Hybrid),
    {
        match self.bridge_mode {
            BridgeMode::Push | BridgeMode::Hybrid => true,
            BridgeMode::Pull => false,
        }
    }
}

} // verus!

verus! {

// ── Validation ───────────────────────────────────────────────────────────────

/// Only whitespace.
pub open spec fn is_blank(s: Seq<char>) -> bool {
    trim(s).len() == 0
}

fn blank(s: &String) -> (r: bool)
    ensures
        r == is_blank(s@),
{
    trim_str(s.as_str()).as_str().is_empty()
}

/// `list[index]: `, the prefix of a message about one array entry.
pub open spec fn entry_prefix(list: Seq<char>, index: nat) -> Seq<char> {
    list + "["@ + dec(index) + "]: "@
}

fn invalid(msg: &str) -> (e: ConfigError)
    ensures
        e matches ConfigError::Invalid(m) && m@ == msg@,
{
    ConfigError::Invalid(String::from_str(msg))
}

fn invalid_at(list: &str, index: usize, msg: &str) -> (e: ConfigError)
    ensures
        e matches ConfigError::Invalid(m) && m@ == entry_prefix(list@, index as nat) + msg@,
{
    let mut s = String::from_str(list);
    push_str(&mut s, "[");
    push_dec(&mut s, index as u64);
    push_str(&mut s, "]: ");
    push_str(&mut s, msg);
    ConfigError::Invalid(s)
}

/// `duplicate <key> '<value>' in <list> array`.
pub open spec fn duplicate_text(key: Seq<char>, value: Seq<char>, list: Seq<char>) -> Seq<char> {
    "duplicate "@ + key + " '"@ + value + "' in "@ + list + " array"@
}

fn duplicate(key: &str, value: &String, list: &str) -> (e: ConfigError)
    ensures
        e matches ConfigError::Invalid(m) && m@ == duplicate_text(key@, value@, list@),
{
    let mut s = String::from_str("duplicate ");
    push_str(&mut s, key);
    push_str(&mut s, " '");
    push_str(&mut s, value.as_str());
    push_str(&mut s, "' in ");
    push_str(&mut s, list);
    push_str(&mut s, " array");
    ConfigError::Invalid(s)
}

/// The outcome of a validation as the message it fails with, if any.
pub open spec fn fails_with(r: Result<(), ConfigError>, expected: Option<Seq<char>>) -> bool {
    match r {
        Ok(_) => expected is None,
        Err(ConfigError::Invalid(m)) => expected == Some(m@),
        Err(_) => false,
    }
}

/// The first problem with one device entry.
pub open spec fn device_config_error(d: BridgeDeviceConfig, index: nat) -> Option<Seq<char>> {
    let p = entry_prefix("devices"@, index);
    if is_blank(d.device_ip@) {
        Some(p + "deviceIp is required"@)
    } else if is_blank(d.device_code@) {
        Some(p + "deviceCode is required"@)
    } else if is_blank(d.api_key@) {
        Some(p + "apiKey is required"@)
    } else if !(1 <= d.device_timeout <= 120) {
        Some(p + "deviceTimeout must be between 1 and 120"@)
    } else if d.sync_interval_seconds < 5 {
        Some(p + "syncIntervalSeconds must be at least 5"@)
    } else {
        match d.device_timezone {
            Some(t) => if utc_offset_of(t@) is None {
                Some(
                    p + "deviceTimezone must be UTC or a fixed offset like +06:00 (got '"@ + t@
                        + "')"@,
                )
            } else {
                None
            },
            None => None,
        }
    }
}

impl BridgeDeviceConfig {
    /// Validate one device entry after defaults have been applied.
    pub fn validate(&self, index: usize) -> (r: Result<(), ConfigError>)
        ensures
            fails_with(r, device_config_error(*self, index as nat)),
    {
        if blank(&self.device_ip) {
            return Err(invalid_at("devices", index, "deviceIp is required"));
        }
        if blank(&self.device_code) {
            return Err(invalid_at("devices", index, "deviceCode is required"));
        }
        if blank(&self.api_key) {
            return Err(invalid_at("devices", index, "apiKey is required"));
        }
        if self.device_timeout < 1 || self.device_timeout > 120 {
            return Err(invalid_at("devices", index, "deviceTimeout must be between 1 and 120"));
        }
        if self.sync_interval_seconds < 5 {
            return Err(invalid_at("devices", index, "syncIntervalSeconds must be at least 5"));
        }
        match &self.device_timezone {
            Some(t) => {
                if parse_utc_offset(t.as_str()).is_none() {
                    let mut s = String::from_str(
                        "deviceTimezone must be UTC or a fixed offset like +06:00 (got '",
                    );
                    push_str(&mut s, t.as_str());
                    push_str(&mut s, "')");
                    let e = invalid_at("devices", index, s.as_str());
                    proof {
                        assert(entry_prefix("devices"@, index as nat) + s@ =~= entry_prefix(
                            "devices"@,
                            index as nat,
                        ) + "deviceTimezone must be UTC or a fixed offset like +06:00 (got '"@
                            + t@ + "')"@);
                    }
                    return Err(e);
                }
            },
            None => {},
        }
        Ok(())
    }
}

/// The first problem with one SenseFace device mapping.
pub open spec fn sf_device_config_error(d: SenseFaceDeviceConfig, index: nat) -> Option<Seq<char>> {
    let p = entry_prefix("senseFace.devices"@, index);
    if is_blank(d.serial_number@) {
        Some(p + "serialNumber is required"@)
    } else if is_blank(d.device_code@) {
        Some(p + "deviceCode is required"@)
    } else if is_blank(d.api_key@) {
        Some(p + "apiKey is required"@)
    } else {
        None
    }
}

impl SenseFaceDeviceConfig {
    /// Validate one SenseFace serial mapping.
    pub fn validate(&self, index: usize) -> (r: Result<(), ConfigError>)
        ensures
            fails_with(r, sf_device_config_error(*self, index as nat)),
    {
        if blank(&self.serial_number) {
            return Err(invalid_at("senseFace.devices", index, "serialNumber is required"));
        }
        if blank(&self.device_code) {
            return Err(invalid_at("senseFace.devices", index, "deviceCode is required"));
        }
        if blank(&self.api_key) {
            return Err(invalid_at("senseFace.devices", index, "apiKey is required"));
        }
        Ok(())
    }
}

/// The first problem with a list of SenseFace mappings, checked in order:
/// each entry's own fields, then a serial or code used by an earlier entry.
pub open spec fn sf_devices_error(ds: Seq<SenseFaceDeviceConfig>) -> Option<Seq<char>>
    decreases ds.len(),
{
    if ds.len() == 0 {
        None
    } else {
        match sf_devices_error(ds.drop_last()) {
            Some(m) => Some(m),
            None => {
                let k = ds.len() - 1;
                let d = ds.last();
                match sf_device_config_error(d, k as nat) {
                    Some(m) => Some(m),
                    None => if exists|j: int| 0 <= j < k && #[trigger] ds[j].serial_number@ == d.serial_number@ {
                        Some(duplicate_text("serialNumber"@, d.serial_number@, "senseFace.devices"@))
                    } else if exists|j: int| 0 <= j < k && #[trigger] ds[j].device_code@ == d.device_code@ {
                        Some(duplicate_text("deviceCode"@, d.device_code@, "senseFace.devices"@))
                    } else {
                        None
                    },
                }
            },
        }
    }
}

proof fn lemma_sf_devices_error_prefix(ds: Seq<SenseFaceDeviceConfig>, n: int)
    requires
        0 <= n <= ds.len(),
        sf_devices_error(ds.take(n)) is Some,
    ensures
        sf_devices_error(ds) == sf_devices_error(ds.take(n)),
    decreases ds.len(),
{
    if n == ds.len() {
        assert(ds.take(n) =~= ds);
    } else {
        assert(ds.drop_last().take(n) =~= ds.take(n));
        lemma_sf_devices_error_prefix(ds.drop_last(), n);
    }
}

/// The first problem with a SenseFace receiver configuration.
pub open spec fn sense_face_error(c: SenseFaceConfig) -> Option<Seq<char>> {
    if !c.enabled {
        Some("senseFace.enabled must be true when bridgeMode uses push"@)
    } else if is_blank(c.bind_host@) {
        Some("senseFace.bindHost is required"@)
    } else if is_blank(c.timezone@) {
        Some("senseFace.timezone is required"@)
    } else if is_blank(c.device_code_prefix@) {
        Some("senseFace.deviceCodePrefix is required"@)
    } else if is_blank(c.api_key@) {
        Some("senseFace.apiKey is required"@)
    } else if c.forward_interval_seconds < 5 {
        Some("senseFace.forwardIntervalSeconds must be at least 5"@)
    } else {
        sf_devices_error(c.devices@)
    }
}

/// Whether an earlier entry (before `i`) has the same serial.
fn serial_seen(ds: &Vec<SenseFaceDeviceConfig>, i: usize) -> (r: bool)
    requires
        i < ds.len(),
    ensures
        r == exists|j: int| 0 <= j < i && #[trigger] ds@[j].serial_number@ == ds@[i as int].serial_number@,
{
    let mut j: usize = 0;
    while j < i
        invariant
            j <= i < ds.len(),
            forall|m: int| 0 <= m < j ==> #[trigger] ds@[m].serial_number@ != ds@[i as int].serial_number@,
        decreases i - j,
    {
        if ds[j].serial_number == ds[i].serial_number {
            return true;
        }
        j += 1;
    }
    false
}

/// Whether an earlier entry (before `i`) has the same device code.
fn sf_code_seen(ds: &Vec<SenseFaceDeviceConfig>, i: usize) -> (r: bool)
    requires
        i < ds.len(),
    ensures
        r == exists|j: int| 0 <= j < i && #[trigger] ds@[j].device_code@ == ds@[i as int].device_code@,
{
    let mut j: usize = 0;
    while j < i
        invariant
            j <= i < ds.len(),
            forall|m: int| 0 <= m < j ==> #[trigger] ds@[m].device_code@ != ds@[i as int].device_code@,
        decreases i - j,
    {
        if ds[j].device_code == ds[i].device_code {
            return true;
        }
        j += 1;
    }
    false
}

impl SenseFaceConfig {
    /// Validate SenseFace push receiver settings.
    pub fn validate(&self) -> (r: Result<(), ConfigError>)
        ensures
            fails_with(r, sense_face_error(*self)),
    {
        if !self.enabled {
            return Err(invalid("senseFace.enabled must be true when bridgeMode uses push"));
        }
        if blank(&self.bind_host) {
            return Err(invalid("senseFace.bindHost is required"));
        }
        if blank(&self.timezone) {
            return Err(invalid("senseFace.timezone is required"));
        }
        if blank(&self.device_code_prefix) {
            return Err(invalid("senseFace.deviceCodePrefix is required"));
        }
        if blank(&self.api_key) {
            return Err(invalid("senseFace.apiKey is required"));
        }
        if self.forward_interval_seconds < 5 {
            return Err(invalid("senseFace.forwardIntervalSeconds must be at least 5"));
        }
        let ghost ds = self.devices@;
        let mut i: usize = 0;
        while i < self.devices.len()
            invariant
                i <= self.devices.len(),
                ds == self.devices@,
                sense_face_error(*self) == sf_devices_error(ds),
                sf_devices_error(ds.take(i as int)) is None,
            decreases self.devices.len() - i,
        {
            proof {
                assert(ds.take(i + 1).drop_last() =~= ds.take(i as int));
                assert(ds.take(i + 1).last() == ds[i as int]);
                assert forall|j: int| 0 <= j < i implies #[trigger] ds.take(i + 1)[j] == ds[j] by {}
            }
            match self.devices[i].validate(i) {
                Err(e) => {
                    proof {
                        lemma_sf_devices_error_prefix(ds, i + 1);
                    }
                    return Err(e);
                },
                Ok(()) => {},
            }
            if serial_seen(&self.devices, i) {
                proof {
                    let j = choose|j: int| 0 <= j < i && #[trigger] ds[j].serial_number@ == ds[i as int].serial_number@;
                    assert(ds.take(i + 1)[j] == ds[j]);
                    lemma_sf_devices_error_prefix(ds, i + 1);
                }
                return Err(duplicate("serialNumber", &self.devices[i].serial_number, "senseFace.devices"));
            }
            if sf_code_seen(&self.devices, i) {
                proof {
                    let j = choose|j: int| 0 <= j < i && #[trigger] ds[j].device_code@ == ds[i as int].device_code@;
                    assert(ds.take(i + 1)[j] == ds[j]);
                    if exists|j: int| 0 <= j < i && #[trigger] ds.take(i + 1)[j].serial_number@ == ds[i as int].serial_number@ {
                        let m = choose|j: int| 0 <= j < i && #[trigger] ds.take(i + 1)[j].serial_number@ == ds[i as int].serial_number@;
                        assert(ds[m].serial_number@ == ds[i as int].serial_number@);
                    }
                    lemma_sf_devices_error_prefix(ds, i + 1);
                }
                return Err(duplicate("deviceCode", &self.devices[i].device_code, "senseFace.devices"));
            }
            proof {
                if exists|j: int| 0 <= j < i && #[trigger] ds.take(i + 1)[j].serial_number@ == ds[i as int].serial_number@ {
                    let m = choose|j: int| 0 <= j < i && #[trigger] ds.take(i + 1)[j].serial_number@ == ds[i as int].serial_number@;
                    assert(ds[m].serial_number@ == ds[i as int].serial_number@);
                }
                if exists|j: int| 0 <= j < i && #[trigger] ds.take(i + 1)[j].device_code@ == ds[i as int].device_code@ {
                    let m = choose|j: int| 0 <= j < i && #[trigger] ds.take(i + 1)[j].device_code@ == ds[i as int].device_code@;
                    assert(ds[m].device_code@ == ds[i as int].device_code@);
                }
            }
            i += 1;
        }
        assert(ds.take(self.devices.len() as int) =~= ds);
        Ok(())
    }
}

} // verus!

verus! {

/// `http://` or `https://` followed by something other than slashes.
pub open spec fn http_url_ok(v: Seq<char>) -> bool {
    ||| starts_with(v, "http://"@) && exists|i: int| 7 <= i < v.len() && #[trigger] v[i] != '/'
    ||| starts_with(v, "https://"@) && exists|i: int| 8 <= i < v.len() && #[trigger] v[i] != '/'
}

fn has_non_slash_from(v: &[char], from: usize) -> (r: bool)
    ensures
        r == exists|i: int| from <= i < v.len() && #[trigger] v@[i] != '/',
{
    let mut i = from;
    while i < v.len()
        invariant
            from <= i,
            forall|k: int| from <= k < i && k < v.len() ==> #[trigger] v@[k] == '/',
        decreases v.len() - i,
    {
        if v[i] != '/' {
            return true;
        }
        i += 1;
    }
    false
}

/// Whether `value` is an `http(s)://` URL with a host part.
pub fn check_http_url(value: &str) -> (r: bool)
    ensures
        r == http_url_ok(value@),
{
    let v = chars_of(value);
    proof {
        reveal_strlit("http://");
        reveal_strlit("https://");
    }
    (has_prefix_str(v.as_slice(), "http://") && has_non_slash_from(v.as_slice(), 7)) || (
    has_prefix_str(v.as_slice(), "https://") && has_non_slash_from(v.as_slice(), 8))
}

/// `<key> must use http:// or https://`.
pub open spec fn url_error_text(key: Seq<char>) -> Seq<char> {
    key + " must use http:// or https://"@
}

/// Validate that a URL uses http(s) and names a host.
pub fn validate_http_url(value: &str, key: &str) -> (r: Result<(), ConfigError>)
    ensures
        fails_with(r, if http_url_ok(value@) { None } else { Some(url_error_text(key@)) }),
{
    if check_http_url(value) {
        Ok(())
    } else {
        let mut s = String::from_str(key);
        push_str(&mut s, " must use http:// or https://");
        Err(ConfigError::Invalid(s))
    }
}

/// The first problem with the device list, checked in order: each entry's
/// own fields, then a device code used by an earlier entry.
pub open spec fn devices_error(ds: Seq<BridgeDeviceConfig>) -> Option<Seq<char>>
    decreases ds.len(),
{
    if ds.len() == 0 {
        None
    } else {
        match devices_error(ds.drop_last()) {
            Some(m) => Some(m),
            None => {
                let k = ds.len() - 1;
                let d = ds.last();
                match device_config_error(d, k as nat) {
                    Some(m) => Some(m),
                    None => if exists|j: int| 0 <= j < k && #[trigger] ds[j].device_code@ == d.device_code@ {
                        Some(duplicate_text("deviceCode"@, d.device_code@, "devices"@))
                    } else {
                        None
                    },
                }
            },
        }
    }
}

proof fn lemma_devices_error_prefix(ds: Seq<BridgeDeviceConfig>, n: int)
    requires
        0 <= n <= ds.len(),
        devices_error(ds.take(n)) is Some,
    ensures
        devices_error(ds) == devices_error(ds.take(n)),
    decreases ds.len(),
{
    if n == ds.len() {
        assert(ds.take(n) =~= ds);
    } else {
        assert(ds.drop_last().take(n) =~= ds.take(n));
        lemma_devices_error_prefix(ds.drop_last(), n);
    }
}

pub open spec fn mode_pulls(m: BridgeMode) -> bool {
    m == BridgeMode::Pull || m == BridgeMode::Hybrid
}

pub open spec fn mode_pushes(m: BridgeMode) -> bool {
    m == BridgeMode::Push || m == BridgeMode::Hybrid
}

/// The first problem with a whole configuration.
pub open spec fn bridge_config_error(c: BridgeConfig) -> Option<Seq<char>> {
    if !http_url_ok(c.vps_webhook_url@) {
        Some(url_error_text("vpsWebhookUrl"@))
    } else if c.hrms_base_url matches Some(u) && !http_url_ok(u@) {
        Some(url_error_text("hrmsBaseUrl"@))
    } else if mode_pulls(c.bridge_mode) && c.devices.len() == 0 {
        Some("devices must be a non-empty array when bridgeMode is pull or hybrid"@)
    } else if mode_pushes(c.bridge_mode) && c.sense_face is None {
        Some("senseFace config is required when bridgeMode is push or hybrid"@)
    } else if mode_pushes(c.bridge_mode) && sense_face_error(c.sense_face->0) is Some {
        sense_face_error(c.sense_face->0)
    } else {
        devices_error(c.devices@)
    }
}

fn code_seen(ds: &Vec<BridgeDeviceConfig>, i: usize) -> (r: bool)
    requires
        i < ds.len(),
    ensures
        r == exists|j: int| 0 <= j < i && #[trigger] ds@[j].device_code@ == ds@[i as int].device_code@,
{
    let mut j: usize = 0;
    while j < i
        invariant
            j <= i < ds.len(),
            forall|m: int| 0 <= m < j ==> #[trigger] ds@[m].device_code@ != ds@[i as int].device_code@,
        decreases i - j,
    {
        if ds[j].device_code == ds[i].device_code {
            return true;
        }
        j += 1;
    }
    false
}

impl BridgeConfig {
    /// Validate config values after defaults have been applied.
    pub fn validate(&self) -> (r: Result<(), ConfigError>)
        ensures
            fails_with(r, bridge_config_error(*self)),
    {
        match validate_http_url(self.vps_webhook_url.as_str(), "vpsWebhookUrl") {
            Err(e) => {
                return Err(e);
            },
            Ok(()) => {},
        }
        match &self.hrms_base_url {
            Some(url) => match validate_http_url(url.as_str(), "hrmsBaseUrl") {
                Err(e) => {
                    return Err(e);
                },
                Ok(()) => {},
            },
            None => {},
        }
        if self.uses_pull() && self.devices.len() == 0 {
            return Err(invalid("devices must be a non-empty array when bridgeMode is pull or hybrid"));
        }
        if self.uses_push() {
            match &self.sense_face {
                None => {
                    return Err(invalid("senseFace config is required when bridgeMode is push or hybrid"));
                },
                Some(sf) => match sf.validate() {
                    Err(e) => {
                        return Err(e);
                    },
                    Ok(()) => {},
                },
            }
        }
        let ghost ds = self.devices@;
        let mut i: usize = 0;
        while i < self.devices.len()
            invariant
                i <= self.devices.len(),
                ds == self.devices@,
                bridge_config_error(*self) == devices_error(ds),
                devices_error(ds.take(i as int)) is None,
            decreases self.devices.len() - i,
        {
            proof {
                assert(ds.take(i + 1).drop_last() =~= ds.take(i as int));
                assert(ds.take(i + 1).last() == ds[i as int]);
            }
            match self.devices[i].validate(i) {
                Err(e) => {
                    proof {
                        lemma_devices_error_prefix(ds, i + 1);
                    }
                    return Err(e);
                },
                Ok(()) => {},
            }
            if code_seen(&self.devices, i) {
                proof {
                    let j = choose|j: int| 0 <= j < i && #[trigger] ds[j].device_code@ == ds[i as int].device_code@;
                    assert(ds.take(i + 1)[j] == ds[j]);
                    lemma_devices_error_prefix(ds, i + 1);
                }
                return Err(duplicate("deviceCode", &self.devices[i].device_code, "devices"));
            }
            proof {
                if exists|j: int| 0 <= j < i && #[trigger] ds.take(i + 1)[j].device_code@ == ds[i as int].device_code@ {
                    let m = choose|j: int| 0 <= j < i && #[trigger] ds.take(i + 1)[j].device_code@ == ds[i as int].device_code@;
                    assert(ds[m].device_code@ == ds[i as int].device_code@);
                }
            }
            i += 1;
        }
        assert(ds.take(self.devices.len() as int) =~= ds);
        Ok(())
    }
}

} // verus!

verus! {

// ── Reading config JSON ──────────────────────────────────────────────────────

/// `s` without leading and trailing `"` characters (`trim_matches('"')`).
pub open spec fn strip_quotes(s: Seq<char>) -> Seq<char> {
    strip_quotes_end(strip_quotes_start(s))
}

pub open spec fn strip_quotes_start(s: Seq<char>) -> Seq<char>
    decreases s.len(),
{
    if s.len() > 0 && s[0] == '"' {
        strip_quotes_start(s.drop_first())
    } else {
        s
    }
}

pub open spec fn strip_quotes_end(s: Seq<char>) -> Seq<char>
    decreases s.len(),
{
    if s.len() > 0 && s.last() == '"' {
        strip_quotes_end(s.drop_last())
    } else {
        s
    }
}

fn strip_quote_chars(s: &[char]) -> (r: Vec<char>)
    ensures
        r@ == strip_quotes(s@),
{
    let mut a: usize = 0;
    assert(s@.skip(0) =~= s@);
    while a < s.len() && s[a] == '"'
        invariant
            a <= s.len(),
            strip_quotes_start(s@) == strip_quotes_start(s@.skip(a as int)),
        decreases s.len() - a,
    {
        assert(s@.skip(a as int).drop_first() =~= s@.skip(a + 1));
        a += 1;
    }
    let t = slice_chars(s, a, s.len());
    assert(t@ =~= s@.skip(a as int));
    let mut b = t.len();
    assert(t@.take(b as int) =~= t@);
    while b > 0 && t[b - 1] == '"'
        invariant
            b <= t.len(),
            strip_quotes_end(t@) == strip_quotes_end(t@.take(b as int)),
        decreases b,
    {
        assert(t@.take(b as int).drop_last() =~= t@.take(b - 1));
        b -= 1;
    }
    slice_chars(t.as_slice(), 0, b)
}

/// The text of a member as `optional_trimmed_string` reads it: a string
/// trimmed, `null` or absent as nothing, anything else as its JSON text
/// with quotes and whitespace trimmed.
pub open spec fn member_text(v: Option<Json>) -> Option<Seq<char>> {
    match v {
        None => None,
        Some(Json::Null) => None,
        Some(Json::Str(s)) => Some(trim(s@)),
        Some(j) => Some(trim(strip_quotes(json_text(j)))),
    }
}

fn value_text(v: Option<&Json>) -> (r: Option<String>)
    ensures
        match r {
            Some(t) => member_text(match v { Some(j) => Some(*j), None => None }) == Some(t@),
            None => member_text(match v { Some(j) => Some(*j), None => None }) is None,
        },
{
    match v {
        None => None,
        Some(Json::Null) => None,
        Some(Json::Str(s)) => Some(trim_str(s.as_str())),
        Some(j) => {
            let t = j.to_text();
            let tc = chars_of(t.as_str());
            let q = strip_quote_chars(tc.as_slice());
            let trimmed = crate::text::trim_chars(q.as_slice());
            Some(string_of(trimmed.as_slice()))
        },
    }
}

/// The model of an optional member reference.
pub open spec fn opt_json(v: Option<&Json>) -> Option<Json> {
    match v {
        Some(j) => Some(*j),
        None => None,
    }
}

/// `<context>: <key> must be an integer`.
pub open spec fn integer_error(context: Seq<char>, key: Seq<char>) -> Seq<char> {
    context + ": "@ + key + " must be an integer"@
}

/// `<context>: <key> must be a boolean`.
pub open spec fn boolean_error(context: Seq<char>, key: Seq<char>) -> Seq<char> {
    context + ": "@ + key + " must be a boolean"@
}

/// `<context>: <key> must be 1-65535`.
pub open spec fn port_error(context: Seq<char>, key: Seq<char>) -> Seq<char> {
    context + ": "@ + key + " must be 1-65535"@
}

/// `<context>: missing required key: <key>`.
pub open spec fn missing_error(context: Seq<char>, key: Seq<char>) -> Seq<char> {
    context + ": missing required key: "@ + key
}

fn keyed_error(context: &str, key: &str, tail: &str) -> (e: ConfigError)
    ensures
        e matches ConfigError::Invalid(m) && m@ == context@ + ": "@ + key@ + tail@,
{
    let mut s = String::from_str(context);
    push_str(&mut s, ": ");
    push_str(&mut s, key);
    push_str(&mut s, tail);
    ConfigError::Invalid(s)
}

/// An unsigned integer setting: absent or `null` is the default; a number
/// must be a non-negative integer; a string must parse as one.
pub open spec fn u64_setting(v: Option<Json>, default: u64) -> Option<u64> {
    match v {
        None => Some(default),
        Some(Json::Null) => Some(default),
        Some(Json::Number(n)) => n.as_u64,
        Some(Json::Str(s)) => match nat_text(trim(s@)) {
            Some(x) => if x <= u64::MAX {
                Some(x as u64)
            } else {
                None
            },
            None => None,
        },
        _ => None,
    }
}

pub fn u64_from_value(v: Option<&Json>, default: u64, key: &str, context: &str) -> (r: Result<u64, ConfigError>)
    ensures
        match r {
            Ok(x) => u64_setting(opt_json(v), default) == Some(x),
            Err(e) => u64_setting(opt_json(v), default) is None && e == ConfigError::Invalid(
                e->Invalid_0,
            ) && e->Invalid_0@ == integer_error(context@, key@),
        },
{
    match v {
        None => Ok(default),
        Some(Json::Null) => Ok(default),
        Some(Json::Number(n)) => match n.as_u64 {
            Some(x) => Ok(x),
            None => Err(keyed_error(context, key, " must be an integer")),
        },
        Some(Json::Str(s)) => {
            let t = trim_str(s.as_str());
            let tc = chars_of(t.as_str());
            match parse_u64_chars(tc.as_slice()) {
                Some(x) => Ok(x),
                None => Err(keyed_error(context, key, " must be an integer")),
            }
        },
        _ => Err(keyed_error(context, key, " must be an integer")),
    }
}

/// A port setting: an unsigned integer setting in 1..=65535.
pub open spec fn u16_setting(v: Option<Json>, default: u16) -> Result<u16, bool> {
    match u64_setting(v, default as u64) {
        None => Err(false),
        Some(x) => if 1 <= x <= 65535 {
            Ok(x as u16)
        } else {
            Err(true)
        },
    }
}

pub fn u16_from_value(v: Option<&Json>, default: u16, key: &str, context: &str) -> (r: Result<u16, ConfigError>)
    ensures
        match r {
            Ok(x) => u16_setting(opt_json(v), default) == Ok::<u16, bool>(x),
            Err(e) => e is Invalid && match u16_setting(opt_json(v), default) {
                Err(false) => e->Invalid_0@ == integer_error(context@, key@),
                Err(true) => e->Invalid_0@ == port_error(context@, key@),
                Ok(_) => false,
            },
        },
{
    match u64_from_value(v, default as u64, key, context) {
        Err(e) => Err(e),
        Ok(x) => if 1 <= x && x <= 65535 {
            Ok(x as u16)
        } else {
            Err(keyed_error(context, key, " must be 1-65535"))
        },
    }
}

/// A signed 32-bit setting.
pub open spec fn i32_setting(v: Option<Json>, default: i32) -> Option<i32> {
    match v {
        None => Some(default),
        Some(Json::Null) => Some(default),
        Some(Json::Number(n)) => match n.as_i64 {
            Some(x) => if i32::MIN <= x <= i32::MAX {
                Some(x as i32)
            } else {
                None
            },
            None => None,
        },
        Some(Json::Str(s)) => match int_text(trim(s@)) {
            Some(x) => if i32::MIN <= x <= i32::MAX {
                Some(x as i32)
            } else {
                None
            },
            None => None,
        },
        _ => None,
    }
}

pub fn i32_from_value(v: Option<&Json>, default: i32, key: &str, context: &str) -> (r: Result<i32, ConfigError>)
    ensures
        match r {
            Ok(x) => i32_setting(opt_json(v), default) == Some(x),
            Err(e) => i32_setting(opt_json(v), default) is None && e is Invalid && e->Invalid_0@
                == integer_error(context@, key@),
        },
{
    match v {
        None => Ok(default),
        Some(Json::Null) => Ok(default),
        Some(Json::Number(n)) => match n.as_i64 {
            Some(x) => if -2147483648 <= x && x <= 2147483647 {
                Ok(x as i32)
            } else {
                Err(keyed_error(context, key, " must be an integer"))
            },
            None => Err(keyed_error(context, key, " must be an integer")),
        },
        Some(Json::Str(s)) => {
            let t = trim_str(s.as_str());
            let tc = chars_of(t.as_str());
            match parse_i32_chars(tc.as_slice()) {
                Some(x) => Ok(x),
                None => Err(keyed_error(context, key, " must be an integer")),
            }
        },
        _ => Err(keyed_error(context, key, " must be an integer")),
    }
}

/// A switch: booleans as they are, numbers true unless zero (or not an
/// `i64`), strings true for `1`, `true`, `yes`, `y`, `on` (any case).
pub open spec fn bool_setting(v: Option<Json>, default: bool) -> Option<bool> {
    match v {
        None => Some(default),
        Some(Json::Null) => Some(default),
        Some(Json::Bool(b)) => Some(b),
        Some(Json::Number(n)) => Some(
            match n.as_i64 {
                Some(x) => x != 0,
                None => false,
            },
        ),
        Some(Json::Str(s)) => {
            let t = lower_seq(trim(s@));
            Some(t == "1"@ || t == "true"@ || t == "yes"@ || t == "y"@ || t == "on"@)
        },
        _ => None,
    }
}

pub fn bool_from_value(v: Option<&Json>, default: bool, key: &str, context: &str) -> (r: Result<bool, ConfigError>)
    ensures
        match r {
            Ok(x) => bool_setting(opt_json(v), default) == Some(x),
            Err(e) => bool_setting(opt_json(v), default) is None && e is Invalid && e->Invalid_0@
                == boolean_error(context@, key@),
        },
{
    match v {
        None => Ok(default),
        Some(Json::Null) => Ok(default),
        Some(Json::Bool(b)) => Ok(*b),
        Some(Json::Number(n)) => Ok(
            match n.as_i64 {
                Some(x) => x != 0,
                None => false,
            },
        ),
        Some(Json::Str(s)) => {
            let t = trim_str(s.as_str());
            let tc = chars_of(t.as_str());
            let l = lower_chars(tc.as_slice());
            let l = l.as_slice();
            Ok(eq_str(l, "1") || eq_str(l, "true") || eq_str(l, "yes") || eq_str(l, "y") || eq_str(l, "on"))
        },
        _ => Err(keyed_error(context, key, " must be a boolean")),
    }
}

/// `optional_trimmed_string` of a member, non-empty.
pub open spec fn present_text(v: Option<Json>) -> Option<Seq<char>> {
    match member_text(v) {
        Some(t) => if t.len() > 0 {
            Some(t)
        } else {
            None
        },
        None => None,
    }
}

fn present_value_text(v: Option<&Json>) -> (r: Option<String>)
    ensures
        match r {
            Some(t) => present_text(opt_json(v)) == Some(t@),
            None => present_text(opt_json(v)) is None,
        },
{
    match value_text(v) {
        Some(t) => if t.as_str().is_empty() {
            None
        } else {
            Some(t)
        },
        None => None,
    }
}

pub fn required_string(object: &Json, key: &str, context: &str) -> (r: Result<String, ConfigError>)
    ensures
        match r {
            Ok(t) => present_text(json_get(*object, key@)) == Some(t@),
            Err(e) => present_text(json_get(*object, key@)) is None && e is Invalid && e->Invalid_0@
                == missing_error(context@, key@),
        },
{
    match present_value_text(object.get(key)) {
        Some(t) => Ok(t),
        None => {
            let mut s = String::from_str(context);
            push_str(&mut s, ": missing required key: ");
            push_str(&mut s, key);
            Err(ConfigError::Invalid(s))
        },
    }
}

} // verus!

verus! {

/// The first problem reading one device object, in the order its fields are
/// read.
pub open spec fn device_parse_error(o: Json, ctx: Seq<char>) -> Option<Seq<char>> {
    if present_text(json_get(o, "deviceIp"@)) is None {
        Some(missing_error(ctx, "deviceIp"@))
    } else if u16_setting(json_get(o, "devicePort"@), 4370) is Err {
        Some(
            if u16_setting(json_get(o, "devicePort"@), 4370) == Err::<u16, bool>(false) {
                integer_error(ctx, "devicePort"@)
            } else {
                port_error(ctx, "devicePort"@)
            },
        )
    } else if i32_setting(json_get(o, "devicePassword"@), 0) is None {
        Some(integer_error(ctx, "devicePassword"@))
    } else if u64_setting(json_get(o, "deviceTimeout"@), 15) is None {
        Some(integer_error(ctx, "deviceTimeout"@))
    } else if bool_setting(json_get(o, "deviceForceUdp"@), false) is None {
        Some(boolean_error(ctx, "deviceForceUdp"@))
    } else if bool_setting(json_get(o, "deviceOmitPing"@), true) is None {
        Some(boolean_error(ctx, "deviceOmitPing"@))
    } else if present_text(json_get(o, "deviceCode"@)) is None {
        Some(missing_error(ctx, "deviceCode"@))
    } else if present_text(json_get(o, "apiKey"@)) is None {
        Some(missing_error(ctx, "apiKey"@))
    } else if u64_setting(json_get(o, "organizationId"@), 1) is None {
        Some(integer_error(ctx, "organizationId"@))
    } else if u64_setting(json_get(o, "syncIntervalSeconds"@), 300) is None {
        Some(integer_error(ctx, "syncIntervalSeconds"@))
    } else if bool_setting(json_get(o, "clearAttendanceAfterSync"@), false) is None {
        Some(boolean_error(ctx, "clearAttendanceAfterSync"@))
    } else if threshold_setting(json_get(o, "clearAttendanceThreshold"@)) is Err {
        Some(integer_error(ctx, "clearAttendanceThreshold"@))
    } else {
        None
    }
}

/// The optional clear threshold: absent or `null` is none.
pub open spec fn threshold_setting(v: Option<Json>) -> Result<Option<u64>, ()> {
    match v {
        None => Ok(None),
        Some(Json::Null) => Ok(None),
        Some(j) => match u64_setting(Some(j), 0) {
            Some(x) => Ok(Some(x)),
            None => Err(()),
        },
    }
}

/// `d` holds what a device object says, defaults filled in.
pub open spec fn device_read(o: Json, d: BridgeDeviceConfig) -> bool {
    &&& present_text(json_get(o, "deviceIp"@)) == Some(d.device_ip@)
    &&& u16_setting(json_get(o, "devicePort"@), 4370) == Ok::<u16, bool>(d.device_port)
    &&& i32_setting(json_get(o, "devicePassword"@), 0) == Some(d.device_password)
    &&& u64_setting(json_get(o, "deviceTimeout"@), 15) == Some(d.device_timeout)
    &&& bool_setting(json_get(o, "deviceForceUdp"@), false) == Some(d.device_force_udp)
    &&& bool_setting(json_get(o, "deviceOmitPing"@), true) == Some(d.device_omit_ping)
    &&& present_text(json_get(o, "deviceTimezone"@)) == opt_text(d.device_timezone)
    &&& present_text(json_get(o, "deviceCode"@)) == Some(d.device_code@)
    &&& present_text(json_get(o, "apiKey"@)) == Some(d.api_key@)
    &&& u64_setting(json_get(o, "organizationId"@), 1) == Some(d.organization_id)
    &&& u64_setting(json_get(o, "syncIntervalSeconds"@), 300) matches Some(s) && d.sync_interval_seconds == if s < 5 {
        5
    } else {
        s
    }
    &&& bool_setting(json_get(o, "clearAttendanceAfterSync"@), false) == Some(d.clear_attendance_after_sync)
    &&& threshold_setting(json_get(o, "clearAttendanceThreshold"@)) == Ok::<Option<u64>, ()>(d.clear_attendance_threshold)
}

/// The outcome of a read as the message it fails with, if any.
pub open spec fn read_fails_with<T>(r: Result<T, ConfigError>, expected: Option<Seq<char>>) -> bool {
    match r {
        Ok(_) => expected is None,
        Err(ConfigError::Invalid(m)) => expected == Some(m@),
        Err(_) => false,
    }
}

/// Read one device object; `context` names it in messages.
pub fn parse_device_from_object(object: &Json, context: &str) -> (r: Result<BridgeDeviceConfig, ConfigError>)
    ensures
        read_fails_with(r, device_parse_error(*object, context@)),
        r matches Ok(d) ==> device_read(*object, d),
{
    let device_ip = match required_string(object, "deviceIp", context) {
        Ok(v) => v,
        Err(e) => {
            return Err(e);
        },
    };
    let device_port = match u16_from_value(object.get("devicePort"), 4370, "devicePort", context) {
        Ok(v) => v,
        Err(e) => {
            return Err(e);
        },
    };
    let device_password = match i32_from_value(object.get("devicePassword"), 0, "devicePassword", context) {
        Ok(v) => v,
        Err(e) => {
            return Err(e);
        },
    };
    let device_timeout = match u64_from_value(object.get("deviceTimeout"), 15, "deviceTimeout", context) {
        Ok(v) => v,
        Err(e) => {
            return Err(e);
        },
    };
    let device_force_udp = match bool_from_value(object.get("deviceForceUdp"), false, "deviceForceUdp", context) {
        Ok(v) => v,
        Err(e) => {
            return Err(e);
        },
    };
    let device_omit_ping = match bool_from_value(object.get("deviceOmitPing"), true, "deviceOmitPing", context) {
        Ok(v) => v,
        Err(e) => {
            return Err(e);
        },
    };
    let device_timezone = present_value_text(object.get("deviceTimezone"));
    let device_code = match required_string(object, "deviceCode", context) {
        Ok(v) => v,
        Err(e) => {
            return Err(e);
        },
    };
    let api_key = match required_string(object, "apiKey", context) {
        Ok(v) => v,
        Err(e) => {
            return Err(e);
        },
    };
    let organization_id = match u64_from_value(object.get("organizationId"), 1, "organizationId", context) {
        Ok(v) => v,
        Err(e) => {
            return Err(e);
        },
    };
    let sync = match u64_from_value(object.get("syncIntervalSeconds"), 300, "syncIntervalSeconds", context) {
        Ok(v) => v,
        Err(e) => {
            return Err(e);
        },
    };
    let clear = match bool_from_value(
        object.get("clearAttendanceAfterSync"),
        false,
        "clearAttendanceAfterSync",
        context,
    ) {
        Ok(v) => v,
        Err(e) => {
            return Err(e);
        },
    };
    let threshold = match object.get("clearAttendanceThreshold") {
        None => None,
        Some(Json::Null) => None,
        Some(v) => match u64_from_value(Some(v), 0, "clearAttendanceThreshold", context) {
            Ok(x) => Some(x),
            Err(e) => {
                return Err(e);
            },
        },
    };
    Ok(
        BridgeDeviceConfig {
            device_ip,
            device_port,
            device_password,
            device_timeout,
            device_force_udp,
            device_omit_ping,
            device_timezone,
            device_code,
            api_key,
            organization_id,
            sync_interval_seconds: if sync < 5 {
                5
            } else {
                sync
            },
            clear_attendance_after_sync: clear,
            clear_attendance_threshold: threshold,
        },
    )
}

/// `<list>[<index>]`.
pub open spec fn entry_name(list: Seq<char>, index: nat) -> Seq<char> {
    list + "["@ + dec(index) + "]"@
}

fn entry_name_text(list: &str, index: usize) -> (s: String)
    ensures
        s@ == entry_name(list@, index as nat),
{
    let mut s = String::from_str(list);
    push_str(&mut s, "[");
    push_dec(&mut s, index as u64);
    push_str(&mut s, "]");
    s
}

/// Read entry `index` of the `devices` array.
pub fn parse_device(value: &Json, index: usize) -> (r: Result<BridgeDeviceConfig, ConfigError>)
    ensures
        read_fails_with(
            r,
            if value is Object {
                device_parse_error(*value, entry_name("devices"@, index as nat))
            } else {
                Some(entry_name("devices"@, index as nat) + ": must be a JSON object"@)
            },
        ),
        r matches Ok(d) ==> device_read(*value, d),
{
    let ctx = entry_name_text("devices", index);
    match value {
        Json::Object { .. } => parse_device_from_object(value, ctx.as_str()),
        _ => {
            let mut s = ctx;
            push_str(&mut s, ": must be a JSON object");
            Err(ConfigError::Invalid(s))
        },
    }
}

} // verus!

verus! {

/// The error reading entry `k` of the `devices` array, if any.
pub open spec fn device_entry_error(item: Json, k: nat) -> Option<Seq<char>> {
    if item is Object {
        device_parse_error(item, entry_name("devices"@, k))
    } else {
        Some(entry_name("devices"@, k) + ": must be a JSON object"@)
    }
}

/// The first entry of `items` (from its start) that cannot be read.
pub open spec fn device_list_error(items: Seq<Json>) -> Option<Seq<char>>
    decreases items.len(),
{
    if items.len() == 0 {
        None
    } else {
        match device_list_error(items.drop_last()) {
            Some(m) => Some(m),
            None => device_entry_error(items.last(), (items.len() - 1) as nat),
        }
    }
}

proof fn lemma_device_list_error_prefix(items: Seq<Json>, n: int)
    requires
        0 <= n <= items.len(),
        device_list_error(items.take(n)) is Some,
    ensures
        device_list_error(items) == device_list_error(items.take(n)),
    decreases items.len(),
{
    if n == items.len() {
        assert(items.take(n) =~= items);
    } else {
        assert(items.drop_last().take(n) =~= items.take(n));
        lemma_device_list_error_prefix(items.drop_last(), n);
    }
}

fn parse_device_list(items: &Vec<Json>) -> (r: Result<Vec<BridgeDeviceConfig>, ConfigError>)
    ensures
        read_fails_with(r, device_list_error(items@)),
        r matches Ok(ds) ==> ds.len() == items.len() && forall|k: int| 0 <= k < items.len() ==> device_read(#[trigger] items@[k], ds@[k]),
{
    let mut ds: Vec<BridgeDeviceConfig> = Vec::new();
    let mut i: usize = 0;
    while i < items.len()
        invariant
            i <= items.len(),
            ds.len() == i,
            device_list_error(items@.take(i as int)) is None,
            forall|k: int| 0 <= k < i ==> device_read(#[trigger] items@[k], ds@[k]),
        decreases items.len() - i,
    {
        proof {
            assert(items@.take(i + 1).drop_last() =~= items@.take(i as int));
            assert(items@.take(i + 1).last() == items@[i as int]);
        }
        match parse_device(&items[i], i) {
            Ok(d) => {
                ds.push(d);
            },
            Err(e) => {
                proof {
                    lemma_device_list_error_prefix(items@, i + 1);
                }
                return Err(e);
            },
        }
        i += 1;
    }
    assert(items@.take(items.len() as int) =~= items@);
    Ok(ds)
}

// ── SenseFace section ────────────────────────────────────────────────────────

/// A text setting with a default for absent or empty values.
pub open spec fn text_or(v: Option<Json>, default: Seq<char>) -> Seq<char> {
    match present_text(v) {
        Some(t) => t,
        None => default,
    }
}

fn text_or_default(v: Option<&Json>, default: &str) -> (r: String)
    ensures
        r@ == text_or(opt_json(v), default@),
{
    match present_value_text(v) {
        Some(t) => t,
        None => String::from_str(default),
    }
}

/// The first problem reading one SenseFace device mapping.
pub open spec fn sf_entry_error(item: Json, k: nat) -> Option<Seq<char>> {
    let ctx = entry_name("senseFace.devices"@, k);
    if !(item is Object) {
        Some(ctx + ": must be a JSON object"@)
    } else if present_text(json_get(item, "serialNumber"@)) is None {
        Some(missing_error(ctx, "serialNumber"@))
    } else if present_text(json_get(item, "deviceCode"@)) is None {
        Some(missing_error(ctx, "deviceCode"@))
    } else if u64_setting(json_get(item, "organizationId"@), 0) is None {
        Some(integer_error(ctx, "organizationId"@))
    } else {
        None
    }
}

/// `d` holds what a SenseFace device object says, with the section's key
/// and organization as defaults.
pub open spec fn sf_device_read(item: Json, default_key: Seq<char>, default_org: u64, d: SenseFaceDeviceConfig) -> bool {
    &&& present_text(json_get(item, "serialNumber"@)) == Some(d.serial_number@)
    &&& present_text(json_get(item, "deviceCode"@)) == Some(d.device_code@)
    &&& d.api_key@ == text_or(json_get(item, "apiKey"@), default_key)
    &&& u64_setting(json_get(item, "organizationId"@), default_org) == Some(d.organization_id)
}

pub fn parse_sense_face_device(
    value: &Json,
    index: usize,
    default_api_key: &str,
    default_organization_id: u64,
) -> (r: Result<SenseFaceDeviceConfig, ConfigError>)
    ensures
        read_fails_with(
            r,
            if sf_entry_error(*value, index as nat) is Some {
                sf_entry_error(*value, index as nat)
            } else if u64_setting(json_get(*value, "organizationId"@), default_organization_id) is None {
                Some(integer_error(entry_name("senseFace.devices"@, index as nat), "organizationId"@))
            } else {
                None
            },
        ),
        r matches Ok(d) ==> sf_device_read(*value, default_api_key@, default_organization_id, d),
{
    let ctx = entry_name_text("senseFace.devices", index);
    match value {
        Json::Object { .. } => {},
        _ => {
            let mut s = ctx;
            push_str(&mut s, ": must be a JSON object");
            return Err(ConfigError::Invalid(s));
        },
    }
    let serial_number = match required_string(value, "serialNumber", ctx.as_str()) {
        Ok(v) => v,
        Err(e) => {
            return Err(e);
        },
    };
    let device_code = match required_string(value, "deviceCode", ctx.as_str()) {
        Ok(v) => v,
        Err(e) => {
            return Err(e);
        },
    };
    let api_key = text_or_default(value.get("apiKey"), default_api_key);
    let organization_id = match u64_from_value(
        value.get("organizationId"),
        default_organization_id,
        "organizationId",
        ctx.as_str(),
    ) {
        Ok(v) => v,
        Err(e) => {
            return Err(e);
        },
    };
    Ok(SenseFaceDeviceConfig { serial_number, device_code, api_key, organization_id })
}

} // verus!

verus! {

/// The first SenseFace device entry that cannot be read.
pub open spec fn sf_list_error(items: Seq<Json>) -> Option<Seq<char>>
    decreases items.len(),
{
    if items.len() == 0 {
        None
    } else {
        match sf_list_error(items.drop_last()) {
            Some(m) => Some(m),
            None => sf_entry_error(items.last(), (items.len() - 1) as nat),
        }
    }
}

proof fn lemma_sf_list_error_prefix(items: Seq<Json>, n: int)
    requires
        0 <= n <= items.len(),
        sf_list_error(items.take(n)) is Some,
    ensures
        sf_list_error(items) == sf_list_error(items.take(n)),
    decreases items.len(),
{
    if n == items.len() {
        assert(items.take(n) =~= items);
    } else {
        assert(items.drop_last().take(n) =~= items.take(n));
        lemma_sf_list_error_prefix(items.drop_last(), n);
    }
}

/// The first problem reading the `senseFace` section.
pub open spec fn sense_face_parse_error(v: Option<Json>) -> Option<Seq<char>> {
    match v {
        None => None,
        Some(Json::Null) => None,
        Some(o) => if !(o is Object) {
            Some("senseFace must be a JSON object"@)
        } else if bool_setting(json_get(o, "enabled"@), true) is None {
            Some(boolean_error("senseFace"@, "enabled"@))
        } else if u16_setting(json_get(o, "port"@), 8090) is Err {
            Some(
                if u16_setting(json_get(o, "port"@), 8090) == Err::<u16, bool>(false) {
                    integer_error("senseFace"@, "port"@)
                } else {
                    port_error("senseFace"@, "port"@)
                },
            )
        } else if present_text(json_get(o, "apiKey"@)) is None {
            Some(missing_error("senseFace"@, "apiKey"@))
        } else if u64_setting(json_get(o, "organizationId"@), 1) is None {
            Some(integer_error("senseFace"@, "organizationId"@))
        } else if u64_setting(json_get(o, "forwardIntervalSeconds"@), 10) is None {
            Some(integer_error("senseFace"@, "forwardIntervalSeconds"@))
        } else {
            match json_get(o, "devices"@) {
                None => None,
                Some(Json::Array { items, .. }) => sf_list_error(items@),
                Some(_) => Some("senseFace.devices must be an array"@),
            }
        },
    }
}

/// `c` holds what a `senseFace` section says, defaults filled in.
pub open spec fn sense_face_read(o: Json, c: SenseFaceConfig) -> bool {
    &&& bool_setting(json_get(o, "enabled"@), true) == Some(c.enabled)
    &&& c.bind_host@ == text_or(json_get(o, "bindHost"@), "0.0.0.0"@)
    &&& u16_setting(json_get(o, "port"@), 8090) == Ok::<u16, bool>(c.port)
    &&& c.timezone@ == text_or(json_get(o, "timezone"@), "Asia/Dhaka"@)
    &&& c.device_code_prefix@ == text_or(json_get(o, "deviceCodePrefix"@), "SF"@)
    &&& present_text(json_get(o, "apiKey"@)) == Some(c.api_key@)
    &&& u64_setting(json_get(o, "organizationId"@), 1) == Some(c.organization_id)
    &&& u64_setting(json_get(o, "forwardIntervalSeconds"@), 10) matches Some(f) && c.forward_interval_seconds
        == if f < 5 {
        5
    } else {
        f
    }
    &&& match json_get(o, "devices"@) {
        Some(Json::Array { items, .. }) => c.devices.len() == items.len() && forall|k: int|
            0 <= k < items.len() ==> sf_device_read(
                #[trigger] items@[k],
                c.api_key@,
                c.organization_id,
                c.devices@[k],
            ),
        _ => c.devices.len() == 0,
    }
}

fn parse_sf_list(items: &Vec<Json>, api_key: &str, organization_id: u64) -> (r: Result<Vec<SenseFaceDeviceConfig>, ConfigError>)
    ensures
        read_fails_with(r, sf_list_error(items@)),
        r matches Ok(ds) ==> ds.len() == items.len() && forall|k: int|
            0 <= k < items.len() ==> sf_device_read(#[trigger] items@[k], api_key@, organization_id, ds@[k]),
{
    let mut ds: Vec<SenseFaceDeviceConfig> = Vec::new();
    let mut i: usize = 0;
    while i < items.len()
        invariant
            i <= items.len(),
            ds.len() == i,
            sf_list_error(items@.take(i as int)) is None,
            forall|k: int|
                0 <= k < i ==> sf_device_read(#[trigger] items@[k], api_key@, organization_id, ds@[k]),
        decreases items.len() - i,
    {
        proof {
            assert(items@.take(i + 1).drop_last() =~= items@.take(i as int));
            assert(items@.take(i + 1).last() == items@[i as int]);
        }
        match parse_sense_face_device(&items[i], i, api_key, organization_id) {
            Ok(d) => {
                ds.push(d);
            },
            Err(e) => {
                proof {
                    lemma_sf_list_error_prefix(items@, i + 1);
                }
                return Err(e);
            },
        }
        i += 1;
    }
    assert(items@.take(items.len() as int) =~= items@);
    Ok(ds)
}

/// Read the optional `senseFace` section.
pub fn parse_sense_face(value: Option<&Json>) -> (r: Result<Option<SenseFaceConfig>, ConfigError>)
    ensures
        read_fails_with(r, sense_face_parse_error(opt_json(value))),
        r matches Ok(c) ==> match c {
            None => value is None || *value->0 is Null,
            Some(cfg) => value is Some && sense_face_read(*value->0, cfg),
        },
{
    let o = match value {
        None => {
            return Ok(None);
        },
        Some(Json::Null) => {
            return Ok(None);
        },
        Some(o) => o,
    };
    match o {
        Json::Object { .. } => {},
        _ => {
            return Err(ConfigError::Invalid(String::from_str("senseFace must be a JSON object")));
        },
    }
    let enabled = match bool_from_value(o.get("enabled"), true, "enabled", "senseFace") {
        Ok(v) => v,
        Err(e) => {
            return Err(e);
        },
    };
    let bind_host = text_or_default(o.get("bindHost"), "0.0.0.0");
    let port = match u16_from_value(o.get("port"), 8090, "port", "senseFace") {
        Ok(v) => v,
        Err(e) => {
            return Err(e);
        },
    };
    let timezone = text_or_default(o.get("timezone"), "Asia/Dhaka");
    let device_code_prefix = text_or_default(o.get("deviceCodePrefix"), "SF");
    let api_key = match required_string(o, "apiKey", "senseFace") {
        Ok(v) => v,
        Err(e) => {
            return Err(e);
        },
    };
    let organization_id = match u64_from_value(o.get("organizationId"), 1, "organizationId", "senseFace") {
        Ok(v) => v,
        Err(e) => {
            return Err(e);
        },
    };
    let forward = match u64_from_value(o.get("forwardIntervalSeconds"), 10, "forwardIntervalSeconds", "senseFace") {
        Ok(v) => v,
        Err(e) => {
            return Err(e);
        },
    };
    let devices = match o.get("devices") {
        None => Vec::new(),
        Some(Json::Array { items, .. }) => match parse_sf_list(items, api_key.as_str(), organization_id) {
            Ok(ds) => ds,
            Err(e) => {
                return Err(e);
            },
        },
        Some(_) => {
            return Err(ConfigError::Invalid(String::from_str("senseFace.devices must be an array")));
        },
    };
    Ok(
        Some(
            SenseFaceConfig {
                enabled,
                bind_host,
                port,
                timezone,
                device_code_prefix,
                api_key,
                organization_id,
                forward_interval_seconds: if forward < 5 {
                    5
                } else {
                    forward
                },
                devices,
            },
        ),
    )
}

// ── Bridge mode ──────────────────────────────────────────────────────────────

/// The text a `bridgeMode` member is read as, before lower-casing.
pub open spec fn mode_member_text(j: Json) -> Seq<char> {
    match j {
        Json::Str(s) => trim(s@),
        _ => trim(strip_quotes(json_text(j))),
    }
}

/// The bridge mode a member names; when absent, push if SenseFace is
/// enabled, else pull. `None` for an unknown name.
pub open spec fn bridge_mode_of(v: Option<Json>, sense_face_enabled: bool) -> Option<BridgeMode> {
    match v {
        None => Some(
            if sense_face_enabled {
                BridgeMode::Push
            } else {
                BridgeMode::Pull
            },
        ),
        Some(j) => {
            let t = lower_seq(mode_member_text(j));
            if t == "pull"@ {
                Some(BridgeMode::Pull)
            } else if t == "push"@ {
                Some(BridgeMode::Push)
            } else if t == "hybrid"@ || t == "both"@ || t == "pull_push"@ || t == "push_pull"@ {
                Some(BridgeMode::Hybrid)
            } else {
                None
            }
        },
    }
}

pub fn parse_bridge_mode(value: Option<&Json>, sense_face: Option<&SenseFaceConfig>) -> (r: Result<BridgeMode, ConfigError>)
    ensures
        match r {
            Ok(m) => bridge_mode_of(opt_json(value), sense_face matches Some(c) && c.enabled) == Some(m),
            Err(e) => bridge_mode_of(opt_json(value), sense_face matches Some(c) && c.enabled) is None && e
                is Invalid && e->Invalid_0@ == "config: bridgeMode must be pull, push, or hybrid"@,
        },
{
    let j = match value {
        None => {
            let enabled = match sense_face {
                Some(c) => c.enabled,
                None => false,
            };
            return Ok(
                if enabled {
                    BridgeMode::Push
                } else {
                    BridgeMode::Pull
                },
            );
        },
        Some(j) => j,
    };
    let raw = match j {
        Json::Str(s) => trim_str(s.as_str()),
        _ => {
            let t = j.to_text();
            let tc = chars_of(t.as_str());
            let q = strip_quote_chars(tc.as_slice());
            string_of(crate::text::trim_chars(q.as_slice()).as_slice())
        },
    };
    let rc = chars_of(raw.as_str());
    let l = lower_chars(rc.as_slice());
    let l = l.as_slice();
    if eq_str(l, "pull") {
        Ok(BridgeMode::Pull)
    } else if eq_str(l, "push") {
        Ok(BridgeMode::Push)
    } else if eq_str(l, "hybrid") || eq_str(l, "both") || eq_str(l, "pull_push") || eq_str(l, "push_pull") {
        Ok(BridgeMode::Hybrid)
    } else {
        Err(ConfigError::Invalid(String::from_str("config: bridgeMode must be pull, push, or hybrid")))
    }
}

} // verus!

verus! {

/// Whether the `senseFace` member is a section with `enabled` on.
pub open spec fn sense_face_enabled(v: Option<Json>) -> bool {
    match v {
        Some(o) => o is Object && bool_setting(json_get(o, "enabled"@), true) == Some(true),
        None => false,
    }
}

/// The member the bridge port is read from: `bridgePort`, else `port`.
pub open spec fn port_member(root: Json) -> Option<Json> {
    match json_get(root, "bridgePort"@) {
        Some(v) => Some(v),
        None => json_get(root, "port"@),
    }
}

/// Whether the root holds the single-device legacy layout.
pub open spec fn has_legacy_device(root: Json) -> bool {
    json_get(root, "deviceIp"@) is Some || json_get(root, "deviceCode"@) is Some || json_get(
        root,
        "apiKey"@,
    ) is Some
}

/// The first problem reading `config.json` (before validation).
pub open spec fn config_read_error(raw: Json) -> Option<Seq<char>> {
    if !(raw is Object) {
        Some("config must be a JSON object"@)
    } else if present_text(json_get(raw, "vpsWebhookUrl"@)) is None {
        Some(missing_error("config"@, "vpsWebhookUrl"@))
    } else if sense_face_parse_error(json_get(raw, "senseFace"@)) is Some {
        sense_face_parse_error(json_get(raw, "senseFace"@))
    } else if bridge_mode_of(json_get(raw, "bridgeMode"@), sense_face_enabled(json_get(raw, "senseFace"@)))
        is None {
        Some("config: bridgeMode must be pull, push, or hybrid"@)
    } else if u16_setting(port_member(raw), 7431) is Err {
        Some(
            if u16_setting(port_member(raw), 7431) == Err::<u16, bool>(false) {
                integer_error("config"@, "bridgePort"@)
            } else {
                port_error("config"@, "bridgePort"@)
            },
        )
    } else if bool_setting(json_get(raw, "autoStartOnBoot"@), false) is None {
        Some(boolean_error("config"@, "autoStartOnBoot"@))
    } else if u64_setting(json_get(raw, "jobPollIntervalSeconds"@), 30) is None {
        Some(integer_error("config"@, "jobPollIntervalSeconds"@))
    } else if bool_setting(json_get(raw, "autoUpdate"@), false) is None {
        Some(boolean_error("config"@, "autoUpdate"@))
    } else if u64_setting(json_get(raw, "updateCheckIntervalHours"@), 6) is None {
        Some(integer_error("config"@, "updateCheckIntervalHours"@))
    } else {
        match json_get(raw, "devices"@) {
            Some(Json::Array { items, .. }) => device_list_error(items@),
            Some(_) => Some("devices must be an array"@),
            None => if has_legacy_device(raw) {
                device_parse_error(raw, "device"@)
            } else {
                None
            },
        }
    }
}

/// `c` holds what `config.json` says, defaults filled in.
pub open spec fn config_read(raw: Json, c: BridgeConfig) -> bool {
    &&& present_text(json_get(raw, "vpsWebhookUrl"@)) == Some(c.vps_webhook_url@)
    &&& match c.sense_face {
        Some(sf) => json_get(raw, "senseFace"@) matches Some(o) && sense_face_read(o, sf),
        None => json_get(raw, "senseFace"@) is None || json_get(raw, "senseFace"@) == Some(Json::Null),
    }
    &&& bridge_mode_of(json_get(raw, "bridgeMode"@), sense_face_enabled(json_get(raw, "senseFace"@)))
        == Some(c.bridge_mode)
    &&& u16_setting(port_member(raw), 7431) == Ok::<u16, bool>(c.bridge_port)
    &&& bool_setting(json_get(raw, "autoStartOnBoot"@), false) == Some(c.auto_start_on_boot)
    &&& opt_text(c.hrms_base_url) == match member_text(json_get(raw, "hrmsBaseUrl"@)) {
        Some(u) => Some(crate::hrms::without_trailing_slashes(u)),
        None => None,
    }
    &&& opt_text(c.hrms_api_token) == member_text(json_get(raw, "hrmsApiToken"@))
    &&& u64_setting(json_get(raw, "jobPollIntervalSeconds"@), 30) matches Some(j) && c.job_poll_interval_seconds
        == if j < 5 {
        5
    } else {
        j
    }
    &&& bool_setting(json_get(raw, "autoUpdate"@), false) == Some(c.auto_update)
    &&& u64_setting(json_get(raw, "updateCheckIntervalHours"@), 6) matches Some(h) && c.update_check_interval_hours
        == if h < 1 {
        1
    } else {
        h
    }
    &&& match json_get(raw, "devices"@) {
        Some(Json::Array { items, .. }) => c.devices.len() == items.len() && forall|k: int|
            0 <= k < items.len() ==> device_read(#[trigger] items@[k], c.devices@[k]),
        _ => if json_get(raw, "devices"@) is None && has_legacy_device(raw) {
            c.devices.len() == 1 && device_read(raw, c.devices@[0])
        } else {
            c.devices.len() == 0
        },
    }
}

/// What loading a parsed config gives: the config it reads, when that reads
/// and validates; else `Invalid` with the reading's or the validation's
/// message.
pub open spec fn loaded_from(raw: Json, r: Result<BridgeConfig, ConfigError>) -> bool {
    match r {
        Ok(c) => config_read_error(raw) is None && config_read(raw, c) && bridge_config_error(c) is None,
        Err(ConfigError::Invalid(m)) => config_read_error(raw) == Some(m@) || (config_read_error(raw) is None
            && exists|c: BridgeConfig| config_read(raw, c) && bridge_config_error(c) == Some(m@)),
        Err(_) => false,
    }
}

/// Load a config from its file text: `InvalidJson` with the parser's
/// message when the text is not JSON, else what the parsed value loads as.
pub fn config_from_json_text(raw: &str) -> (r: Result<BridgeConfig, ConfigError>)
    ensures
        json_parsed(raw@) is None ==> r matches Err(ConfigError::InvalidJson(_)),
        json_parsed(raw@) matches Some(j) ==> loaded_from(j, r),
{
    match parse_json_text(raw) {
        Ok(j) => BridgeConfig::from_json_value(&j),
        Err(m) => Err(ConfigError::InvalidJson(m)),
    }
}

impl BridgeConfig {
    /// Normalize legacy/new config JSON into the typed runtime model, then
    /// validate it.
    pub fn from_json_value(raw: &Json) -> (r: Result<Self, ConfigError>)
        ensures
            loaded_from(*raw, r),
    {
        match raw {
            Json::Object { .. } => {},
            _ => {
                return Err(ConfigError::Invalid(String::from_str("config must be a JSON object")));
            },
        }
        let vps_webhook_url = match required_string(raw, "vpsWebhookUrl", "config") {
            Ok(v) => v,
            Err(e) => {
                return Err(e);
            },
        };
        let sense_face = match parse_sense_face(raw.get("senseFace")) {
            Ok(v) => v,
            Err(e) => {
                return Err(e);
            },
        };
        let bridge_mode = match parse_bridge_mode(raw.get("bridgeMode"), sense_face.as_ref()) {
            Ok(v) => v,
            Err(e) => {
                return Err(e);
            },
        };
        let port_value = match raw.get("bridgePort") {
            Some(v) => Some(v),
            None => raw.get("port"),
        };
        let bridge_port = match u16_from_value(port_value, 7431, "bridgePort", "config") {
            Ok(v) => v,
            Err(e) => {
                return Err(e);
            },
        };
        let auto_start_on_boot = match bool_from_value(raw.get("autoStartOnBoot"), false, "autoStartOnBoot", "config") {
            Ok(v) => v,
            Err(e) => {
                return Err(e);
            },
        };
        let hrms_base_url = match value_text(raw.get("hrmsBaseUrl")) {
            Some(u) => Some(crate::hrms::trim_trailing_slashes(u.as_str())),
            None => None,
        };
        let hrms_api_token = value_text(raw.get("hrmsApiToken"));
        let poll = match u64_from_value(raw.get("jobPollIntervalSeconds"), 30, "jobPollIntervalSeconds", "config") {
            Ok(v) => v,
            Err(e) => {
                return Err(e);
            },
        };
        let auto_update = match bool_from_value(raw.get("autoUpdate"), false, "autoUpdate", "config") {
            Ok(v) => v,
            Err(e) => {
                return Err(e);
            },
        };
        let hours = match u64_from_value(raw.get("updateCheckIntervalHours"), 6, "updateCheckIntervalHours", "config") {
            Ok(v) => v,
            Err(e) => {
                return Err(e);
            },
        };
        let devices = match raw.get("devices") {
            Some(Json::Array { items, .. }) => match parse_device_list(items) {
                Ok(ds) => ds,
                Err(e) => {
                    return Err(e);
                },
            },
            Some(_) => {
                return Err(ConfigError::Invalid(String::from_str("devices must be an array")));
            },
            None => {
                let legacy = raw.get("deviceIp").is_some() || raw.get("deviceCode").is_some() || raw.get(
                    "apiKey",
                ).is_some();
                if legacy {
                    match parse_device_from_object(raw, "device") {
                        Ok(d) => {
                            let mut v: Vec<BridgeDeviceConfig> = Vec::new();
                            v.push(d);
                            v
                        },
                        Err(e) => {
                            return Err(e);
                        },
                    }
                } else {
                    Vec::new()
                }
            },
        };
        let cfg = BridgeConfig {
            bridge_mode,
            vps_webhook_url,
            bridge_port,
            auto_start_on_boot,
            hrms_base_url,
            hrms_api_token,
            job_poll_interval_seconds: if poll < 5 {
                5
            } else {
                poll
            },
            auto_update,
            update_check_interval_hours: if hours < 1 {
                1
            } else {
                hours
            },
            devices,
            sense_face,
        };
        assert(config_read(*raw, cfg));
        match cfg.validate() {
            Ok(()) => Ok(cfg),
            Err(e) => Err(e),
        }
    }
}

} // verus!
