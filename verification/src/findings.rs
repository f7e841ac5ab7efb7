//! What a scan reports: one finding per open service, built from what each
//! probe saw, sorted by address and port, and summarized for display.

use vstd::prelude::*;

use crate::config::BridgeDeviceConfig;
use crate::ports::DeviceInfo;
use crate::scanner::{
    device_code_for, ip_string, ip_text, ipv4_value, parse_ipv4, port_label, port_name,
    suggested_device_code, none_if_empty, ScanOptions,
};
use crate::text::{
    chars_of, contains_chars, contains_text, dec, decode_utf8_lossy, first_index, find_char,
    has_prefix_str, nat_text, parse_u16_chars, push_dec, push_str, slice_chars, starts_with,
    str_eq, string_of, trim, trim_chars, utf8_lossy,
};

verus! {

// ── Findings ─────────────────────────────────────────────────────────────────

/// A device block suggested for the configuration file.
#[derive(Debug, Clone)]
pub struct SuggestedDeviceConfig {
    pub device_ip: String,
    pub device_port: u16,
    pub device_password: i32,
    pub device_timeout: u64,
    pub device_force_udp: bool,
    pub device_omit_ping: bool,
    pub device_code: String,
    pub api_key: String,
    pub organization_id: u64,
    pub sync_interval_seconds: u64,
    pub clear_attendance_after_sync: bool,
}

pub struct SuggestedView {
    pub device_ip: Seq<char>,
    pub device_port: u16,
    pub device_password: i32,
    pub device_timeout: u64,
    pub device_force_udp: bool,
    pub device_omit_ping: bool,
    pub device_code: Seq<char>,
    pub api_key: Seq<char>,
    pub organization_id: u64,
    pub sync_interval_seconds: u64,
    pub clear_attendance_after_sync: bool,
}

impl View for SuggestedDeviceConfig {
    type V = SuggestedView;

    open spec fn view(&self) -> SuggestedView {
        SuggestedView {
            device_ip: self.device_ip@,
            device_port: self.device_port,
            device_password: self.device_password,
            device_timeout: self.device_timeout,
            device_force_udp: self.device_force_udp,
            device_omit_ping: self.device_omit_ping,
            device_code: self.device_code@,
            api_key: self.api_key@,
            organization_id: self.organization_id,
            sync_interval_seconds: self.sync_interval_seconds,
            clear_attendance_after_sync: self.clear_attendance_after_sync,
        }
    }
}

/// One open service found by a scan.
#[derive(Debug, Clone)]
pub struct ScanFinding {
    pub ip: String,
    pub port: u16,
    pub service_type: String,
    pub attendance_device: bool,
    pub protocol: String,
    pub serial: Option<String>,
    pub firmware: Option<String>,
    pub platform: Option<String>,
    pub name: Option<String>,
    pub users: Option<usize>,
    pub fingers: Option<usize>,
    pub records: Option<usize>,
    pub http_status: Option<u16>,
    pub http_server: Option<String>,
    pub suggested_device_code: String,
    pub suggested_config: Option<SuggestedDeviceConfig>,
    pub error: Option<String>,
}

pub struct FindingView {
    pub ip: Seq<char>,
    pub port: u16,
    pub service_type: Seq<char>,
    pub attendance_device: bool,
    pub protocol: Seq<char>,
    pub serial: Option<Seq<char>>,
    pub firmware: Option<Seq<char>>,
    pub platform: Option<Seq<char>>,
    pub name: Option<Seq<char>>,
    pub users: Option<usize>,
    pub fingers: Option<usize>,
    pub records: Option<usize>,
    pub http_status: Option<u16>,
    pub http_server: Option<Seq<char>>,
    pub suggested_device_code: Seq<char>,
    pub suggested_config: Option<SuggestedView>,
    pub error: Option<Seq<char>>,
}

/// The view of an optional text.
pub open spec fn text_opt(o: Option<String>) -> Option<Seq<char>> {
    match o {
        Some(s) => Some(s@),
        None => None,
    }
}

impl View for ScanFinding {
    type V = FindingView;

    open spec fn view(&self) -> FindingView {
        FindingView {
            ip: self.ip@,
            port: self.port,
            service_type: self.service_type@,
            attendance_device: self.attendance_device,
            protocol: self.protocol@,
            serial: text_opt(self.serial),
            firmware: text_opt(self.firmware),
            platform: text_opt(self.platform),
            name: text_opt(self.name),
            users: self.users,
            fingers: self.fingers,
            records: self.records,
            http_status: self.http_status,
            http_server: text_opt(self.http_server),
            suggested_device_code: self.suggested_device_code@,
            suggested_config: match self.suggested_config {
                Some(c) => Some(c@),
                None => None,
            },
            error: text_opt(self.error),
        }
    }
}

/// At most the first `n` characters of `s`.
pub open spec fn first_chars(s: Seq<char>, n: nat) -> Seq<char> {
    if s.len() <= n {
        s
    } else {
        s.take(n as int)
    }
}

fn take_chars(s: &[char], n: usize) -> (r: String)
    ensures
        r@ == first_chars(s@, n as nat),
{
    if s.len() <= n {
        string_of(s)
    } else {
        let p = slice_chars(s, 0, n);
        assert(p@ =~= s@.take(n as int));
        string_of(p.as_slice())
    }
}

/// The placeholder device code of a non-device service: `SRV-a-b-c-d`.
pub open spec fn server_code_text(ip: u32) -> Seq<char> {
    "SRV-"@ + ip_text(ip, '-')
}

fn server_code(ip: u32) -> (r: String)
    ensures
        r@ == server_code_text(ip),
{
    let mut r = String::from_str("SRV-");
    let t = ip_string(ip, '-');
    push_str(&mut r, t.as_str());
    r
}

/// A finding for a service that is not an attendance device.
pub open spec fn service_view(
    ip: u32,
    port: u16,
    service_type: Seq<char>,
    protocol: Seq<char>,
    name: Option<Seq<char>>,
    http_status: Option<u16>,
    http_server: Option<Seq<char>>,
    error: Option<Seq<char>>,
) -> FindingView {
    FindingView {
        ip: ip_text(ip, '.'),
        port,
        service_type,
        attendance_device: false,
        protocol,
        serial: None,
        firmware: None,
        platform: None,
        name,
        users: None,
        fingers: None,
        records: None,
        http_status,
        http_server,
        suggested_device_code: server_code_text(ip),
        suggested_config: None,
        error,
    }
}

fn service_finding(
    ip: u32,
    port: u16,
    service_type: String,
    protocol: &str,
    name: Option<String>,
    http_status: Option<u16>,
    http_server: Option<String>,
    error: Option<String>,
) -> (f: ScanFinding)
    ensures
        f@ == service_view(
            ip,
            port,
            service_type@,
            protocol@,
            text_opt(name),
            http_status,
            text_opt(http_server),
            text_opt(error),
        ),
{
    ScanFinding {
        ip: ip_string(ip, '.'),
        port,
        service_type,
        attendance_device: false,
        protocol: String::from_str(protocol),
        serial: None,
        firmware: None,
        platform: None,
        name,
        users: None,
        fingers: None,
        records: None,
        http_status,
        http_server,
        suggested_device_code: server_code(ip),
        suggested_config: None,
        error,
    }
}

/// An open port reported with the error its probe met (cut to 160
/// characters).
pub open spec fn open_view(ip: u32, port: u16, error: Seq<char>) -> FindingView {
    service_view(ip, port, port_name(port), "tcp"@, None, None, None, Some(first_chars(error, 160)))
}

pub fn open_finding(ip: u32, port: u16, error: &str) -> (f: ScanFinding)
    ensures
        f@ == open_view(ip, port, error@),
{
    let e = chars_of(error);
    service_finding(
        ip,
        port,
        String::from_str(port_label(port)),
        "tcp",
        None,
        None,
        None,
        Some(take_chars(e.as_slice(), 160)),
    )
}

// ── ZKTeco devices ───────────────────────────────────────────────────────────

impl ScanOptions {
    /// The TCP connect timeout of a port probe, in milliseconds (at least 50).
    pub fn connect_timeout_ms(&self) -> (r: u64)
        ensures
            r == if self.scan_timeout_ms < 50 {
                50
            } else {
                self.scan_timeout_ms
            },
    {
        if self.scan_timeout_ms < 50 {
            50
        } else {
            self.scan_timeout_ms
        }
    }

    /// The timeout of a service probe, in seconds (at least 1).
    pub fn probe_timeout_secs(&self) -> (r: u64)
        ensures
            r == if self.device_timeout_secs < 1 {
                1
            } else {
                self.device_timeout_secs
            },
    {
        if self.device_timeout_secs < 1 {
            1
        } else {
            self.device_timeout_secs
        }
    }
}

/// The connection settings used to probe a ZKTeco device at `ip:port`.
pub fn probe_device_config(opts: &ScanOptions, ip: u32, port: u16) -> (cfg: BridgeDeviceConfig)
    ensures
        cfg.device_ip@ == ip_text(ip, '.'),
        cfg.device_port == port,
        cfg.device_password == opts.device_password,
        cfg.device_timeout == if opts.device_timeout_secs < 1 {
            1
        } else {
            opts.device_timeout_secs
        },
        cfg.device_force_udp == opts.force_udp,
        cfg.device_omit_ping,
        cfg.device_timezone is None,
        cfg.device_code@ == device_code_for(None, ip),
        cfg.api_key@.len() == 0,
        cfg.organization_id == 1,
        cfg.sync_interval_seconds == 300,
        !cfg.clear_attendance_after_sync,
        cfg.clear_attendance_threshold is None,
{
    BridgeDeviceConfig {
        device_ip: ip_string(ip, '.'),
        device_port: port,
        device_password: opts.device_password,
        device_timeout: opts.probe_timeout_secs(),
        device_force_udp: opts.force_udp,
        device_omit_ping: true,
        device_timezone: None,
        device_code: suggested_device_code(None, ip),
        api_key: String::new(),
        organization_id: 1,
        sync_interval_seconds: 300,
        clear_attendance_after_sync: false,
        clear_attendance_threshold: None,
    }
}

/// The device block suggested for a device reached with `cfg`.
pub open spec fn suggested_view(cfg: BridgeDeviceConfig, device_code: Seq<char>) -> SuggestedView {
    SuggestedView {
        device_ip: cfg.device_ip@,
        device_port: cfg.device_port,
        device_password: cfg.device_password,
        device_timeout: 15,
        device_force_udp: cfg.device_force_udp,
        device_omit_ping: true,
        device_code,
        api_key: "CHANGE_ME"@,
        organization_id: 1,
        sync_interval_seconds: 300,
        clear_attendance_after_sync: false,
    }
}

pub fn suggested_config(cfg: &BridgeDeviceConfig, device_code: String) -> (r: SuggestedDeviceConfig)
    ensures
        r@ == suggested_view(*cfg, device_code@),
{
    SuggestedDeviceConfig {
        device_ip: cfg.device_ip.clone(),
        device_port: cfg.device_port,
        device_password: cfg.device_password,
        device_timeout: 15,
        device_force_udp: cfg.device_force_udp,
        device_omit_ping: true,
        device_code,
        api_key: String::from_str("CHANGE_ME"),
        organization_id: 1,
        sync_interval_seconds: 300,
        clear_attendance_after_sync: false,
    }
}

/// A text trimmed, or nothing when it is blank.
pub open spec fn nonblank(s: Seq<char>) -> Option<Seq<char>> {
    if trim(s).len() > 0 {
        Some(trim(s))
    } else {
        None
    }
}

/// The finding for a device that answered the identification query.
pub open spec fn device_view(opts: ScanOptions, ip: u32, port: u16, info: DeviceInfo) -> FindingView {
    let serial = nonblank(info.serial@);
    let code = device_code_for(serial, ip);
    FindingView {
        ip: ip_text(ip, '.'),
        port,
        service_type: "zkteco"@,
        attendance_device: true,
        protocol: "zkteco"@,
        serial,
        firmware: nonblank(info.firmware@),
        platform: nonblank(info.platform@),
        name: nonblank(info.name@),
        users: Some(info.users),
        fingers: Some(info.fingers),
        records: Some(info.records),
        http_status: None,
        http_server: None,
        suggested_device_code: code,
        suggested_config: Some(
            SuggestedView {
                device_ip: ip_text(ip, '.'),
                device_port: port,
                device_password: opts.device_password,
                device_timeout: 15,
                device_force_udp: opts.force_udp,
                device_omit_ping: true,
                device_code: code,
                api_key: "CHANGE_ME"@,
                organization_id: 1,
                sync_interval_seconds: 300,
                clear_attendance_after_sync: false,
            },
        ),
        error: None,
    }
}

/// What the ZKTeco probe reports, given what connecting and asking the
/// device for its identity gave: the device, or (with `include_open`) the
/// open port and the error, or nothing.
pub fn zkteco_finding(opts: &ScanOptions, ip: u32, port: u16, outcome: Result<DeviceInfo, String>) -> (r: Option<ScanFinding>)
    ensures
        match outcome {
            Ok(info) => r matches Some(f) && f@ == device_view(*opts, ip, port, info),
            Err(e) => if opts.include_open {
                r matches Some(f) && f@ == open_view(ip, port, e@)
            } else {
                r is None
            },
        },
{
    match outcome {
        Ok(info) => {
            let ghost info0 = info;
            let cfg = probe_device_config(opts, ip, port);
            let serial = none_if_empty(info.serial);
            let code = match &serial {
                Some(s) => suggested_device_code(Some(s.as_str()), ip),
                None => suggested_device_code(None, ip),
            };
            let config = suggested_config(&cfg, code.clone());
            let f = ScanFinding {
                ip: ip_string(ip, '.'),
                port,
                service_type: String::from_str("zkteco"),
                attendance_device: true,
                protocol: String::from_str("zkteco"),
                serial,
                firmware: none_if_empty(info.firmware),
                platform: none_if_empty(info.platform),
                name: none_if_empty(info.name),
                users: Some(info.users),
                fingers: Some(info.fingers),
                records: Some(info.records),
                http_status: None,
                http_server: None,
                suggested_device_code: code,
                suggested_config: Some(config),
                error: None,
            };
            Some(f)
        },
        Err(e) => if opts.include_open {
            Some(open_finding(ip, port, e.as_str()))
        } else {
            None
        },
    }
}

// ── Other services ───────────────────────────────────────────────────────────

/// Which probe a port gets.
#[derive(Debug, Clone, Copy, PartialEq, Eq)]
pub enum ProbeKind {
    Zkteco,
    Http,
    Ssh,
    Mysql,
    Postgresql,
    Redis,
    Other,
}

pub open spec fn probe_kind_of(port: u16) -> ProbeKind {
    if port == 4370 {
        ProbeKind::Zkteco
    } else if port == 80 || port == 443 || port == 3000 || port == 7431 || port == 8080 || port == 8443
        || port == 8800 || port == 9090 {
        ProbeKind::Http
    } else if port == 22 {
        ProbeKind::Ssh
    } else if port == 3306 {
        ProbeKind::Mysql
    } else if port == 5432 {
        ProbeKind::Postgresql
    } else if port == 6379 {
        ProbeKind::Redis
    } else {
        ProbeKind::Other
    }
}

/// The probe for an open port.
pub fn probe_kind(port: u16) -> (k: ProbeKind)
    ensures
        k == probe_kind_of(port),
{
    if port == 4370 {
        ProbeKind::Zkteco
    } else if port == 80 || port == 443 || port == 3000 || port == 7431 || port == 8080 || port == 8443
        || port == 8800 || port == 9090 {
        ProbeKind::Http
    } else if port == 22 {
        ProbeKind::Ssh
    } else if port == 3306 {
        ProbeKind::Mysql
    } else if port == 5432 {
        ProbeKind::Postgresql
    } else if port == 6379 {
        ProbeKind::Redis
    } else {
        ProbeKind::Other
    }
}

/// An open port with no service-specific probe: reported under `label`
/// (`open` meaning the port's own label), and only with `include_open` when
/// it is unidentified.
pub open spec fn generic_view(opts: ScanOptions, ip: u32, port: u16, label: Seq<char>) -> Option<FindingView> {
    if !opts.include_open && label == "open"@ {
        None
    } else {
        Some(
            service_view(
                ip,
                port,
                if label == "open"@ {
                    port_name(port)
                } else {
                    label
                },
                "tcp"@,
                None,
                None,
                None,
                None,
            ),
        )
    }
}

pub fn generic_finding(opts: &ScanOptions, ip: u32, port: u16, label: &str) -> (r: Option<ScanFinding>)
    ensures
        match generic_view(*opts, ip, port, label@) {
            Some(v) => r matches Some(f) && f@ == v,
            None => r is None,
        },
{
    let is_open = str_eq(label, "open");
    proof {
        reveal_strlit("open");
    }
    if !opts.include_open && is_open {
        return None;
    }
    let service_type = if is_open {
        String::from_str(port_label(port))
    } else {
        String::from_str(label)
    };
    Some(service_finding(ip, port, service_type, "tcp", None, None, None, None))
}

/// The service label of an HTTP port.
pub open spec fn http_label(port: u16) -> Seq<char> {
    if port == 443 || port == 8443 {
        "https"@
    } else if port == 7431 {
        "fbsy-bridge"@
    } else if port == 8800 {
        "fbsy-hrms"@
    } else {
        "http"@
    }
}

/// The status code of an HTTP status line: its second space-separated
/// field read as a number, or 0.
pub open spec fn status_of_line(line: Seq<char>) -> u16 {
    match first_index(line, ' ') {
        None => 0,
        Some(i) => {
            let rest = line.skip(i + 1);
            let field = match first_index(rest, ' ') {
                None => rest,
                Some(j) => rest.take(j),
            };
            match nat_text(field) {
                Some(n) => if n <= u16::MAX {
                    n as u16
                } else {
                    0
                },
                None => 0,
            }
        },
    }
}

/// The value of a `Server:` header line, cut to 80 characters.
pub open spec fn server_value(line: Seq<char>) -> Option<Seq<char>> {
    if starts_with(line, "Server: "@) || starts_with(line, "server: "@) {
        Some(first_chars(line.skip(8), 80))
    } else {
        None
    }
}

/// The last `Server:` header among the header lines read from `i` on:
/// reading stops at the blank line that ends the headers, or after the
/// line numbered 31.
pub open spec fn head_server(lines: Seq<Seq<char>>, i: int, found: Option<Seq<char>>) -> Option<Seq<char>>
    decreases lines.len() - i,
{
    if i < 0 || i >= lines.len() || lines[i].len() == 0 {
        found
    } else {
        let next = match server_value(lines[i]) {
            Some(v) => Some(v),
            None => found,
        };
        if i > 30 {
            next
        } else {
            head_server(lines, i + 1, next)
        }
    }
}

/// What the head of an HTTP reply shows: the status code of its first line
/// (0 when it has none) and the server it names.
pub open spec fn http_head(lines: Seq<Seq<char>>) -> (u16, Option<Seq<char>>) {
    (
        if lines.len() > 0 {
            status_of_line(lines[0])
        } else {
            0
        },
        head_server(lines, 0, None),
    )
}

fn status_code_of(line: &[char]) -> (r: u16)
    ensures
        r == status_of_line(line@),
{
    let i = match find_char(line, ' ') {
        Some(i) => i,
        None => {
            return 0;
        },
    };
    let rest = slice_chars(line, i + 1, line.len());
    assert(rest@ =~= line@.skip(i + 1));
    let field = match find_char(rest.as_slice(), ' ') {
        Some(j) => {
            let f = slice_chars(rest.as_slice(), 0, j);
            assert(f@ =~= rest@.take(j as int));
            f
        },
        None => rest,
    };
    match parse_u16_chars(field.as_slice()) {
        Some(v) => v,
        None => 0,
    }
}

fn server_of(line: &[char]) -> (r: Option<String>)
    ensures
        text_opt(r) == server_value(line@),
{
    proof {
        reveal_strlit("Server: ");
        reveal_strlit("server: ");
    }
    if has_prefix_str(line, "Server: ") || has_prefix_str(line, "server: ") {
        let rest = slice_chars(line, 8, line.len());
        assert(rest@ =~= line@.skip(8));
        Some(take_chars(rest.as_slice(), 80))
    } else {
        None
    }
}

/// Reads the status code and `Server:` header from the lines of an HTTP
/// reply head.
pub fn parse_http_head(lines: &Vec<String>) -> (r: (u16, Option<String>))
    ensures
        (r.0, text_opt(r.1)) == http_head(lines@.map_values(|l: String| l@)),
{
    let ghost ls = lines@.map_values(|l: String| l@);
    let status: u16 = if lines.len() > 0 {
        let first = chars_of(lines[0].as_str());
        assert(ls[0] == first@);
        status_code_of(first.as_slice())
    } else {
        0
    };
    let mut server: Option<String> = None;
    let mut i: usize = 0;
    while i < lines.len()
        invariant
            i <= lines.len(),
            ls == lines@.map_values(|l: String| l@),
            status == http_head(ls).0,
            head_server(ls, 0, None) == head_server(ls, i as int, text_opt(server)),
        decreases lines.len() - i,
    {
        let line = chars_of(lines[i].as_str());
        assert(ls[i as int] == line@);
        if line.len() == 0 {
            return (status, server);
        }
        match server_of(line.as_slice()) {
            Some(v) => {
                server = Some(v);
            },
            None => {},
        }
        if i > 30 {
            return (status, server);
        }
        i += 1;
    }
    (status, server)
}

/// What the HTTP probe reports, given the status and server it read or the
/// error it met.
pub open spec fn http_view(opts: ScanOptions, ip: u32, port: u16, outcome: Result<(u16, Option<Seq<char>>), Seq<char>>) -> FindingView {
    match outcome {
        Ok((status, server)) => service_view(ip, port, http_label(port), "http"@, server, Some(status), server, None),
        Err(e) => if opts.include_open {
            open_view(ip, port, e)
        } else {
            service_view(ip, port, port_name(port), "tcp"@, None, None, None, Some("HTTP probe failed; port is open"@))
        },
    }
}

pub fn http_finding(opts: &ScanOptions, ip: u32, port: u16, outcome: Result<(u16, Option<String>), String>) -> (f: ScanFinding)
    ensures
        f@ == http_view(
            *opts,
            ip,
            port,
            match outcome {
                Ok((s, v)) => Ok((s, text_opt(v))),
                Err(e) => Err(e@),
            },
        ),
{
    match outcome {
        Ok((status, server)) => {
            let label = if port == 443 || port == 8443 {
                "https"
            } else if port == 7431 {
                "fbsy-bridge"
            } else if port == 8800 {
                "fbsy-hrms"
            } else {
                "http"
            };
            let name = match &server {
                Some(v) => Some(v.clone()),
                None => None,
            };
            service_finding(ip, port, String::from_str(label), "http", name, Some(status), server, None)
        },
        Err(e) => if opts.include_open {
            open_finding(ip, port, e.as_str())
        } else {
            service_finding(
                ip,
                port,
                String::from_str(port_label(port)),
                "tcp",
                None,
                None,
                None,
                Some(String::from_str("HTTP probe failed; port is open")),
            )
        },
    }
}

/// What the SSH probe reports, given the bytes of the banner it read (as
/// trimmed text) or the error it met.
pub open spec fn ssh_view(opts: ScanOptions, ip: u32, port: u16, outcome: Result<Seq<u8>, Seq<char>>) -> Option<FindingView> {
    match outcome {
        Ok(bytes) => {
            let banner = trim(utf8_lossy(bytes));
            if starts_with(banner, "SSH-"@) {
                Some(service_view(ip, port, "ssh"@, "ssh"@, Some(first_chars(banner, 80)), None, None, None))
            } else if opts.include_open {
                Some(open_view(ip, port, "not SSH"@))
            } else {
                Some(open_view(ip, port, "open (not SSH banner)"@))
            }
        },
        Err(e) => if opts.include_open {
            Some(open_view(ip, port, e))
        } else {
            None
        },
    }
}

pub fn ssh_finding(opts: &ScanOptions, ip: u32, port: u16, outcome: Result<Vec<u8>, String>) -> (r: Option<ScanFinding>)
    ensures
        match ssh_view(
            *opts,
            ip,
            port,
            match outcome {
                Ok(b) => Ok(b@),
                Err(e) => Err(e@),
            },
        ) {
            Some(v) => r matches Some(f) && f@ == v,
            None => r is None,
        },
{
    match outcome {
        Ok(bytes) => {
            let text = decode_utf8_lossy(bytes.as_slice());
            let banner = trim_chars(chars_of(text.as_str()).as_slice());
            proof {
                reveal_strlit("SSH-");
            }
            if has_prefix_str(banner.as_slice(), "SSH-") {
                Some(
                    service_finding(
                        ip,
                        port,
                        String::from_str("ssh"),
                        "ssh",
                        Some(take_chars(banner.as_slice(), 80)),
                        None,
                        None,
                        None,
                    ),
                )
            } else if opts.include_open {
                Some(open_finding(ip, port, "not SSH"))
            } else {
                Some(open_finding(ip, port, "open (not SSH banner)"))
            }
        },
        Err(e) => if opts.include_open {
            Some(open_finding(ip, port, e.as_str()))
        } else {
            None
        },
    }
}

/// Whether a reply to `PING` comes from Redis.
pub open spec fn redis_reply(bytes: Seq<u8>) -> bool {
    contains_text(utf8_lossy(bytes), "+PONG"@) || contains_text(utf8_lossy(bytes), "-NOAUTH"@)
}

/// What the Redis probe reports, given the reply to `PING` or the error it
/// met.
pub open spec fn redis_view(opts: ScanOptions, ip: u32, port: u16, outcome: Result<Seq<u8>, Seq<char>>) -> Option<FindingView> {
    match outcome {
        Ok(bytes) => if redis_reply(bytes) {
            Some(service_view(ip, port, "redis"@, "redis"@, Some("Redis"@), None, None, None))
        } else {
            generic_view(opts, ip, port, "open"@)
        },
        Err(e) => if opts.include_open {
            Some(open_view(ip, port, e))
        } else {
            None
        },
    }
}

pub fn redis_finding(opts: &ScanOptions, ip: u32, port: u16, outcome: Result<Vec<u8>, String>) -> (r: Option<ScanFinding>)
    ensures
        match redis_view(
            *opts,
            ip,
            port,
            match outcome {
                Ok(b) => Ok(b@),
                Err(e) => Err(e@),
            },
        ) {
            Some(v) => r matches Some(f) && f@ == v,
            None => r is None,
        },
{
    match outcome {
        Ok(bytes) => {
            let text = decode_utf8_lossy(bytes.as_slice());
            let cs = chars_of(text.as_str());
            let pong = chars_of("+PONG");
            let noauth = chars_of("-NOAUTH");
            if contains_chars(cs.as_slice(), pong.as_slice()) || contains_chars(cs.as_slice(), noauth.as_slice()) {
                Some(
                    service_finding(
                        ip,
                        port,
                        String::from_str("redis"),
                        "redis",
                        Some(String::from_str("Redis")),
                        None,
                        None,
                        None,
                    ),
                )
            } else {
                generic_finding(opts, ip, port, "open")
            }
        },
        Err(e) => if opts.include_open {
            Some(open_finding(ip, port, e.as_str()))
        } else {
            None
        },
    }
}

// ── Ordering ─────────────────────────────────────────────────────────────────

/// The views of a list of findings.
pub open spec fn finding_views(s: Seq<ScanFinding>) -> Seq<FindingView> {
    s.map_values(|f: ScanFinding| f@)
}

/// The order of findings: by address (an unreadable address counts as 0),
/// then by port.
#[verifier::opaque]
pub open spec fn finding_key(f: FindingView) -> (u32, u16) {
    (
        match ipv4_value(f.ip) {
            Some(v) => v,
            None => 0,
        },
        f.port,
    )
}

pub open spec fn key_le(a: (u32, u16), b: (u32, u16)) -> bool {
    a.0 < b.0 || (a.0 == b.0 && a.1 <= b.1)
}

/// `f` inserted after every finding whose key is not greater.
pub open spec fn insert_by_key(s: Seq<FindingView>, f: FindingView) -> Seq<FindingView>
    decreases s.len(),
{
    if s.len() == 0 {
        seq![f]
    } else if key_le(finding_key(s.last()), finding_key(f)) {
        s.push(f)
    } else {
        insert_by_key(s.drop_last(), f).push(s.last())
    }
}

/// The findings sorted by key, keeping the order of equal keys.
pub open spec fn sorted_by_address(s: Seq<FindingView>) -> Seq<FindingView>
    decreases s.len(),
{
    if s.len() == 0 {
        s
    } else {
        insert_by_key(sorted_by_address(s.drop_last()), s.last())
    }
}

proof fn lemma_insert_by_key_at(s: Seq<FindingView>, f: FindingView, j: int)
    requires
        0 <= j <= s.len(),
        forall|k: int| j <= k < s.len() ==> !key_le(finding_key(#[trigger] s[k]), finding_key(f)),
        j == 0 || key_le(finding_key(s[j - 1]), finding_key(f)),
    ensures
        insert_by_key(s, f) == s.insert(j, f),
    decreases s.len(),
{
    if s.len() == 0 {
        assert(s.insert(j, f) =~= seq![f]);
    } else if j == s.len() {
        assert(s.insert(j, f) =~= s.push(f));
    } else {
        let t = s.drop_last();
        assert(!key_le(finding_key(s[s.len() - 1]), finding_key(f)));
        assert forall|k: int| j <= k < t.len() implies !key_le(finding_key(#[trigger] t[k]), finding_key(f)) by {
            assert(t[k] == s[k]);
        }
        lemma_insert_by_key_at(t, f, j);
        assert(t.insert(j, f).push(s.last()) =~= s.insert(j, f));
    }
}

fn key_of(f: &ScanFinding) -> (k: (u32, u16))
    ensures
        k == finding_key(f@),
{
    reveal(finding_key);
    let a = match parse_ipv4(f.ip.as_str()) {
        Some(v) => v,
        None => 0,
    };
    (a, f.port)
}

/// Sorts findings by address and port, keeping the order of equal keys.
pub fn sort_findings(findings: Vec<ScanFinding>) -> (r: Vec<ScanFinding>)
    ensures
        finding_views(r@) == sorted_by_address(finding_views(findings@)),
{
    let ghost orig = finding_views(findings@);
    let mut rest = findings;
    let mut out: Vec<ScanFinding> = Vec::new();
    let mut keys: Vec<(u32, u16)> = Vec::new();
    let ghost mut i: int = 0;
    assert(orig.take(0) =~= Seq::<FindingView>::empty());
    assert(orig.skip(0) =~= orig);
    while rest.len() > 0
        invariant
            0 <= i <= orig.len(),
            rest.len() == orig.len() - i,
            finding_views(rest@) == orig.skip(i),
            finding_views(out@) == sorted_by_address(orig.take(i)),
            keys.len() == out.len(),
            forall|k: int| 0 <= k < out.len() ==> #[trigger] keys@[k] == finding_key(out@[k]@),
        decreases rest.len(),
    {
        let ghost before = rest@;
        let f = rest.remove(0);
        proof {
            assert(finding_views(before)[0] == f@);
            assert(finding_views(rest@) =~= finding_views(before).drop_first());
            assert(orig[i] == f@);
            assert(orig.skip(i).drop_first() =~= orig.skip(i + 1));
            assert(orig.take(i + 1).drop_last() =~= orig.take(i));
        }
        let key = key_of(&f);
        let mut j = out.len();
        while j > 0 && !(keys[j - 1].0 < key.0 || (keys[j - 1].0 == key.0 && keys[j - 1].1 <= key.1))
            invariant
                j <= out.len(),
                keys.len() == out.len(),
                key == finding_key(f@),
                forall|k: int| 0 <= k < out.len() ==> #[trigger] keys@[k] == finding_key(out@[k]@),
                forall|k: int| j <= k < out.len() ==> !key_le(#[trigger] finding_key(out@[k]@), key),
            decreases j,
        {
            j -= 1;
        }
        let ghost sv = finding_views(out@);
        proof {
            assert forall|k: int| j <= k < sv.len() implies !key_le(finding_key(#[trigger] sv[k]), finding_key(f@)) by {
                assert(sv[k] == out@[k]@);
            }
            if j > 0 {
                assert(sv[j - 1] == out@[j - 1]@);
                assert(keys@[j - 1] == finding_key(out@[j - 1]@));
            }
            lemma_insert_by_key_at(sv, f@, j as int);
        }
        let ghost fv = f@;
        let ghost old_out = out@;
        let ghost old_keys = keys@;
        out.insert(j, f);
        keys.insert(j, key);
        proof {
            i = i + 1;
            assert(finding_views(out@) =~= sv.insert(j as int, fv));
            assert forall|k: int| 0 <= k < out.len() implies #[trigger] keys@[k] == finding_key(out@[k]@) by {
                if k < j {
                    assert(keys@[k] == old_keys[k]);
                    assert(out@[k] == old_out[k]);
                } else if k > j {
                    assert(keys@[k] == old_keys[k - 1]);
                    assert(out@[k] == old_out[k - 1]);
                }
            }
        }
    }
    proof {
        assert(orig.skip(i).len() == 0);
        assert(orig.take(i) =~= orig);
    }
    out
}

// ── Display ──────────────────────────────────────────────────────────────────

/// How many findings are attendance devices, and how many are not.
pub open spec fn count_devices(s: Seq<FindingView>) -> nat
    decreases s.len(),
{
    if s.len() == 0 {
        0
    } else {
        count_devices(s.drop_last()) + if s.last().attendance_device {
            1nat
        } else {
            0nat
        }
    }
}

pub fn device_count(findings: &Vec<ScanFinding>) -> (r: (usize, usize))
    ensures
        r.0 == count_devices(finding_views(findings@)),
        r.0 + r.1 == findings.len(),
{
    let ghost v = finding_views(findings@);
    let mut n: usize = 0;
    let mut i: usize = 0;
    while i < findings.len()
        invariant
            i <= findings.len(),
            v == finding_views(findings@),
            n == count_devices(v.take(i as int)),
            n <= i,
        decreases findings.len() - i,
    {
        assert(v.take(i + 1).drop_last() =~= v.take(i as int));
        assert(v[i as int] == findings@[i as int]@);
        if findings[i].attendance_device {
            n += 1;
        }
        i += 1;
    }
    assert(v.take(i as int) =~= v);
    (n, findings.len() - n)
}

/// The first of `o` and `p` that is set, else `d`.
pub open spec fn first_set(o: Option<Seq<char>>, p: Option<Seq<char>>, d: Seq<char>) -> Seq<char> {
    match o {
        Some(v) => v,
        None => match p {
            Some(v) => v,
            None => d,
        },
    }
}

/// The identity column of the findings table: a device's serial, name or
/// suggested code; another service's name or server header, or `-`.
pub open spec fn identity_text(f: FindingView) -> Seq<char> {
    if f.attendance_device {
        first_set(f.serial, f.name, f.suggested_device_code)
    } else {
        first_set(f.name, f.http_server, "-"@)
    }
}

fn copy_text(o: &Option<String>) -> (r: Option<String>)
    ensures
        text_opt(r) == text_opt(*o),
{
    match o {
        Some(s) => Some(s.clone()),
        None => None,
    }
}

fn first_set_of(o: &Option<String>, p: &Option<String>, d: &str) -> (r: String)
    ensures
        r@ == first_set(text_opt(*o), text_opt(*p), d@),
{
    match o {
        Some(v) => v.clone(),
        None => match p {
            Some(v) => v.clone(),
            None => String::from_str(d),
        },
    }
}

pub fn finding_identity(f: &ScanFinding) -> (r: String)
    ensures
        r@ == identity_text(f@),
{
    if f.attendance_device {
        first_set_of(&f.serial, &f.name, f.suggested_device_code.as_str())
    } else {
        first_set_of(&f.name, &f.http_server, "-")
    }
}

pub open spec fn count_or_zero(o: Option<usize>) -> nat {
    match o {
        Some(n) => n as nat,
        None => 0,
    }
}

/// The detail column: a device's counts and firmware, an HTTP status, the
/// probe's error, or `-`.
pub open spec fn detail_text(f: FindingView) -> Seq<char> {
    if f.attendance_device {
        "users="@ + dec(count_or_zero(f.users)) + " fingers="@ + dec(count_or_zero(f.fingers)) + " records="@ + dec(
            count_or_zero(f.records),
        ) + " fw="@ + first_set(f.firmware, None, "-"@)
    } else {
        match f.http_status {
            Some(s) => "HTTP "@ + dec(s as nat),
            None => match f.error {
                Some(e) => e,
                None => "-"@,
            },
        }
    }
}

fn count_value(o: Option<usize>) -> (r: u64)
    ensures
        r == count_or_zero(o),
{
    match o {
        Some(n) => n as u64,
        None => 0,
    }
}

pub fn finding_detail(f: &ScanFinding) -> (r: String)
    ensures
        r@ == detail_text(f@),
{
    if f.attendance_device {
        let mut s = String::from_str("users=");
        push_dec(&mut s, count_value(f.users));
        push_str(&mut s, " fingers=");
        push_dec(&mut s, count_value(f.fingers));
        push_str(&mut s, " records=");
        push_dec(&mut s, count_value(f.records));
        push_str(&mut s, " fw=");
        let fw = first_set_of(&f.firmware, &None, "-");
        push_str(&mut s, fw.as_str());
        s
    } else {
        match f.http_status {
            Some(status) => {
                let mut s = String::from_str("HTTP ");
                push_dec(&mut s, status as u64);
                s
            },
            None => match &f.error {
                Some(e) => e.clone(),
                None => String::from_str("-"),
            },
        }
    }
}

/// The log line of the scanner service for one finding.
pub open spec fn service_line_text(f: FindingView) -> Seq<char> {
    if f.attendance_device {
        "scanner: "@ + f.ip + ":"@ + dec(f.port as nat) + " zkteco serial="@ + first_set(f.serial, None, "-"@)
            + " firmware="@ + first_set(f.firmware, None, "-"@) + " users="@ + dec(count_or_zero(f.users))
            + " fingers="@ + dec(count_or_zero(f.fingers)) + " records="@ + dec(count_or_zero(f.records))
            + " code="@ + f.suggested_device_code
    } else {
        "scanner: "@ + f.ip + ":"@ + dec(f.port as nat) + " "@ + f.service_type + " "@ + first_set(
            f.name,
            f.http_server,
            first_set(f.error, None, ""@),
        )
    }
}

pub fn service_finding_line(f: &ScanFinding) -> (r: String)
    ensures
        r@ == service_line_text(f@),
{
    let mut s = String::from_str("scanner: ");
    push_str(&mut s, f.ip.as_str());
    push_str(&mut s, ":");
    push_dec(&mut s, f.port as u64);
    if f.attendance_device {
        push_str(&mut s, " zkteco serial=");
        let serial = first_set_of(&f.serial, &None, "-");
        push_str(&mut s, serial.as_str());
        push_str(&mut s, " firmware=");
        let fw = first_set_of(&f.firmware, &None, "-");
        push_str(&mut s, fw.as_str());
        push_str(&mut s, " users=");
        push_dec(&mut s, count_value(f.users));
        push_str(&mut s, " fingers=");
        push_dec(&mut s, count_value(f.fingers));
        push_str(&mut s, " records=");
        push_dec(&mut s, count_value(f.records));
        push_str(&mut s, " code=");
        push_str(&mut s, f.suggested_device_code.as_str());
    } else {
        push_str(&mut s, " ");
        push_str(&mut s, f.service_type.as_str());
        push_str(&mut s, " ");
        let err = first_set_of(&f.error, &None, "");
        let tail = match &f.name {
            Some(v) => v.clone(),
            None => match &f.http_server {
                Some(v) => v.clone(),
                None => err,
            },
        };
        push_str(&mut s, tail.as_str());
    }
    s
}

/// The colour family the findings table gives a service type.
#[derive(Debug, Clone, Copy, PartialEq, Eq)]
pub enum ServiceColor {
    Green,
    Cyan,
    Blue,
    Magenta,
    Yellow,
}

pub open spec fn color_of(service_type: Seq<char>) -> ServiceColor {
    if service_type == "zkteco"@ {
        ServiceColor::Green
    } else if service_type == "http"@ || service_type == "https"@ || service_type == "http-dev"@
        || service_type == "http-alt"@ || service_type == "https-alt"@ || service_type == "fbsy-bridge"@
        || service_type == "fbsy-hrms"@ {
        ServiceColor::Cyan
    } else if service_type == "ssh"@ {
        ServiceColor::Blue
    } else if service_type == "redis"@ || service_type == "mysql"@ || service_type == "postgresql"@ {
        ServiceColor::Magenta
    } else {
        ServiceColor::Yellow
    }
}

pub fn service_color(service_type: &str) -> (c: ServiceColor)
    ensures
        c == color_of(service_type@),
{
    if str_eq(service_type, "zkteco") {
        ServiceColor::Green
    } else if str_eq(service_type, "http") || str_eq(service_type, "https") || str_eq(service_type, "http-dev")
        || str_eq(service_type, "http-alt") || str_eq(service_type, "https-alt") || str_eq(
        service_type,
        "fbsy-bridge",
    ) || str_eq(service_type, "fbsy-hrms") {
        ServiceColor::Cyan
    } else if str_eq(service_type, "ssh") {
        ServiceColor::Blue
    } else if str_eq(service_type, "redis") || str_eq(service_type, "mysql") || str_eq(service_type, "postgresql") {
        ServiceColor::Magenta
    } else {
        ServiceColor::Yellow
    }
}

/// The index of the first attendance device among the findings.
pub fn first_device(findings: &Vec<ScanFinding>) -> (r: Option<usize>)
    ensures
        match r {
            Some(i) => i < findings.len() && findings@[i as int].attendance_device && forall|k: int|
                0 <= k < i ==> !(#[trigger] findings@[k]).attendance_device,
            None => forall|k: int| 0 <= k < findings.len() ==> !(#[trigger] findings@[k]).attendance_device,
        },
{
    let mut i: usize = 0;
    while i < findings.len()
        invariant
            i <= findings.len(),
            forall|k: int| 0 <= k < i ==> !(#[trigger] findings@[k]).attendance_device,
        decreases findings.len() - i,
    {
        if findings[i].attendance_device {
            return Some(i);
        }
        i += 1;
    }
    None
}

} // verus!
