//! The arguments a background scanner service is started with, and how the
//! service reads them back.

use vstd::prelude::*;

use crate::scanner::{ip_string, ip_text, ipv4_value, parse_ipv4, ScanOptions};
use crate::services::{after_pair, flag_number};
use crate::text::{chars_of, dec, dec_int, fmt_i64, fmt_u64, int_text, parse_i32_chars, parse_u64_chars, str_eq};

verus! {

/// What a scanner service reads from its arguments.
pub struct ScanSettings {
    pub interval: u64,
    pub cidr: Option<Seq<char>>,
    pub hosts: Seq<u32>,
    /// The ports given with `--port`, in order.
    pub ports: Seq<u16>,
    pub scan_timeout_ms: u64,
    pub device_timeout_secs: u64,
    pub device_password: i32,
    pub force_udp: bool,
    pub include_open: bool,
}

/// The settings before any argument: every 300 s, defaults otherwise.
pub open spec fn default_settings() -> ScanSettings {
    ScanSettings {
        interval: 300,
        cidr: None,
        hosts: seq![],
        ports: seq![],
        scan_timeout_ms: 350,
        device_timeout_secs: 2,
        device_password: 0,
        force_udp: false,
        include_open: false,
    }
}

/// The value after a flag read as a `u64`, when it parses.
pub open spec fn flag_u64(args: Seq<Seq<char>>, i: int) -> Option<u64> {
    match flag_number(args, i) {
        Some(n) => if n <= u64::MAX {
            Some(n as u64)
        } else {
            None
        },
        None => None,
    }
}

/// Reads the arguments from `i` on; each flag with a value consumes the
/// next argument, and an unreadable value leaves the setting as it was.
pub open spec fn scanner_settings(args: Seq<Seq<char>>, i: int, s: ScanSettings) -> ScanSettings
    decreases args.len() - i,
{
    if i < 0 || i >= args.len() {
        s
    } else {
        let next = after_pair(i, args.len() as int);
        let a = args[i];
        if a == "--interval"@ {
            let v = match flag_u64(args, i) {
                Some(v) => v,
                None => s.interval,
            };
            scanner_settings(args, next, ScanSettings { interval: v, ..s })
        } else if a == "--cidr"@ {
            let c = if i + 1 < args.len() {
                Some(args[i + 1])
            } else {
                None
            };
            scanner_settings(args, next, ScanSettings { cidr: c, ..s })
        } else if a == "--host"@ {
            let h = if i + 1 < args.len() {
                match ipv4_value(args[i + 1]) {
                    Some(ip) => s.hosts.push(ip),
                    None => s.hosts,
                }
            } else {
                s.hosts
            };
            scanner_settings(args, next, ScanSettings { hosts: h, ..s })
        } else if a == "--port"@ {
            let p = match flag_number(args, i) {
                Some(n) => if n <= 65535 {
                    s.ports.push(n as u16)
                } else {
                    s.ports
                },
                None => s.ports,
            };
            scanner_settings(args, next, ScanSettings { ports: p, ..s })
        } else if a == "--timeout-ms"@ {
            let v = match flag_u64(args, i) {
                Some(v) => v,
                None => s.scan_timeout_ms,
            };
            scanner_settings(args, next, ScanSettings { scan_timeout_ms: v, ..s })
        } else if a == "--device-timeout"@ {
            let v = match flag_u64(args, i) {
                Some(v) => v,
                None => s.device_timeout_secs,
            };
            scanner_settings(args, next, ScanSettings { device_timeout_secs: v, ..s })
        } else if a == "--password"@ {
            let v = if i + 1 < args.len() {
                match int_text(args[i + 1]) {
                    Some(n) => if i32::MIN <= n <= i32::MAX {
                        n as i32
                    } else {
                        s.device_password
                    },
                    None => s.device_password,
                }
            } else {
                s.device_password
            };
            scanner_settings(args, next, ScanSettings { device_password: v, ..s })
        } else if a == "--udp"@ {
            scanner_settings(args, i + 1, ScanSettings { force_udp: true, ..s })
        } else if a == "--include-open"@ {
            scanner_settings(args, i + 1, ScanSettings { include_open: true, ..s })
        } else {
            scanner_settings(args, i + 1, s)
        }
    }
}

/// The view of what the exec reader holds.
pub open spec fn settings_of(
    interval: u64,
    opts: ScanOptions,
    ports: Seq<u16>,
) -> ScanSettings {
    ScanSettings {
        interval,
        cidr: match opts.cidr {
            Some(c) => Some(c@),
            None => None,
        },
        hosts: opts.hosts@,
        ports,
        scan_timeout_ms: opts.scan_timeout_ms,
        device_timeout_secs: opts.device_timeout_secs,
        device_password: opts.device_password,
        force_udp: opts.force_udp,
        include_open: opts.include_open,
    }
}

fn value_u64(rest: &[String], i: usize) -> (r: Option<u64>)
    requires
        i < rest.len(),
    ensures
        r == flag_u64(rest@.map_values(|a: String| a@), i as int),
{
    let ghost av = rest@.map_values(|a: String| a@);
    if rest.len() - i > 1 {
        assert(av[i + 1] == rest@[i + 1]@);
        let cs = chars_of(rest[i + 1].as_str());
        parse_u64_chars(cs.as_slice())
    } else {
        None
    }
}

/// Reads a scanner service's arguments: the scan interval and the scan
/// options (the ports given with `--port`, else the ZKTeco port).
pub fn parse_scanner(rest: &[String]) -> (r: (u64, ScanOptions))
    ensures
        ({
            let s = scanner_settings(rest@.map_values(|a: String| a@), 0, default_settings());
            &&& r.0 == s.interval
            &&& settings_of(r.0, r.1, s.ports) == s
            &&& r.1.ports@ == if s.ports.len() > 0 {
                s.ports
            } else {
                seq![4370u16]
            }
            &&& !r.1.all_ports && !r.1.wide && !r.1.json
        }),
{
    let ghost av = rest@.map_values(|a: String| a@);
    let mut interval: u64 = 300;
    let mut opts = ScanOptions::default();
    let mut ports: Vec<u16> = Vec::new();
    opts.hosts = Vec::new();
    let mut i: usize = 0;
    assert(settings_of(interval, opts, ports@) == default_settings());
    while i < rest.len()
        invariant
            av == rest@.map_values(|a: String| a@),
            scanner_settings(av, 0, default_settings()) == scanner_settings(
                av,
                i as int,
                settings_of(interval, opts, ports@),
            ),
            !opts.all_ports && !opts.wide && !opts.json,
        decreases rest.len() - i,
    {
        assert(av[i as int] == rest@[i as int]@);
        let has_value = rest.len() - i > 1;
        if has_value {
            assert(av[i + 1] == rest@[i + 1]@);
        }
        let next = if has_value {
            i + 2
        } else {
            rest.len()
        };
        let a = rest[i].as_str();
        if str_eq(a, "--interval") {
            match value_u64(rest, i) {
                Some(v) => {
                    interval = v;
                },
                None => {},
            }
            i = next;
        } else if str_eq(a, "--cidr") {
            opts.cidr = if has_value {
                Some(rest[i + 1].clone())
            } else {
                None
            };
            i = next;
        } else if str_eq(a, "--host") {
            if has_value {
                match parse_ipv4(rest[i + 1].as_str()) {
                    Some(ip) => opts.hosts.push(ip),
                    None => {},
                }
            }
            i = next;
        } else if str_eq(a, "--port") {
            match value_u64(rest, i) {
                Some(v) => {
                    if v <= 65535 {
                        ports.push(v as u16);
                    }
                },
                None => {},
            }
            i = next;
        } else if str_eq(a, "--timeout-ms") {
            match value_u64(rest, i) {
                Some(v) => {
                    opts.scan_timeout_ms = v;
                },
                None => {},
            }
            i = next;
        } else if str_eq(a, "--device-timeout") {
            match value_u64(rest, i) {
                Some(v) => {
                    opts.device_timeout_secs = v;
                },
                None => {},
            }
            i = next;
        } else if str_eq(a, "--password") {
            if has_value {
                let cs = chars_of(rest[i + 1].as_str());
                match parse_i32_chars(cs.as_slice()) {
                    Some(v) => {
                        opts.device_password = v;
                    },
                    None => {},
                }
            }
            i = next;
        } else if str_eq(a, "--udp") {
            opts.force_udp = true;
            i += 1;
        } else if str_eq(a, "--include-open") {
            opts.include_open = true;
            i += 1;
        } else {
            i += 1;
        }
    }
    if ports.len() > 0 {
        opts.ports = ports;
    } else {
        let d: Vec<u16> = vec![4370u16];
        opts.ports = d;
    }
    (interval, opts)
}

/// The arguments a scanner service is started with.
pub open spec fn scanner_arg_list(interval: u64, opts: ScanOptions) -> Seq<Seq<char>> {
    lead_args(interval, opts) + host_args(opts.hosts@) + port_args(opts.ports@) + tail_args(opts)
}

/// The interval and CIDR arguments.
pub open spec fn lead_args(interval: u64, opts: ScanOptions) -> Seq<Seq<char>> {
    seq!["--interval"@, dec(interval as nat)] + match opts.cidr {
        Some(c) => seq!["--cidr"@, c@],
        None => seq![],
    }
}

/// The timeout, password and switch arguments.
pub open spec fn tail_args(opts: ScanOptions) -> Seq<Seq<char>> {
    seq![
        "--timeout-ms"@,
        dec(opts.scan_timeout_ms as nat),
        "--device-timeout"@,
        dec(opts.device_timeout_secs as nat),
        "--password"@,
        dec_int(opts.device_password as int),
    ] + (if opts.force_udp {
        seq!["--udp"@]
    } else {
        seq![]
    }) + (if opts.include_open {
        seq!["--include-open"@]
    } else {
        seq![]
    })
}

pub open spec fn host_args(hosts: Seq<u32>) -> Seq<Seq<char>>
    decreases hosts.len(),
{
    if hosts.len() == 0 {
        seq![]
    } else {
        host_args(hosts.drop_last()) + seq!["--host"@, ip_text(hosts.last(), '.')]
    }
}

pub open spec fn port_args(ports: Seq<u16>) -> Seq<Seq<char>>
    decreases ports.len(),
{
    if ports.len() == 0 {
        seq![]
    } else {
        port_args(ports.drop_last()) + seq!["--port"@, dec(ports.last() as nat)]
    }
}

pub open spec fn arg_views(v: Seq<String>) -> Seq<Seq<char>> {
    v.map_values(|a: String| a@)
}

fn push_arg(v: &mut Vec<String>, a: String)
    ensures
        arg_views(final(v)@) == arg_views(old(v)@).push(a@),
{
    v.push(a);
    assert(arg_views(v@) =~= arg_views(old(v)@).push(a@));
}

fn lead_part(interval: u64, opts: &ScanOptions) -> (r: Vec<String>)
    ensures
        arg_views(r@) == lead_args(interval, *opts),
{
    let mut args: Vec<String> = Vec::new();
    push_arg(&mut args, String::from_str("--interval"));
    push_arg(&mut args, fmt_u64(interval));
    match &opts.cidr {
        Some(c) => {
            push_arg(&mut args, String::from_str("--cidr"));
            push_arg(&mut args, c.clone());
        },
        None => {},
    }
    assert(arg_views(args@) =~= lead_args(interval, *opts));
    args
}

fn tail_part(opts: &ScanOptions) -> (r: Vec<String>)
    ensures
        arg_views(r@) == tail_args(*opts),
{
    let mut args: Vec<String> = Vec::new();
    push_arg(&mut args, String::from_str("--timeout-ms"));
    push_arg(&mut args, fmt_u64(opts.scan_timeout_ms));
    push_arg(&mut args, String::from_str("--device-timeout"));
    push_arg(&mut args, fmt_u64(opts.device_timeout_secs));
    push_arg(&mut args, String::from_str("--password"));
    push_arg(&mut args, fmt_i64(opts.device_password as i64));
    if opts.force_udp {
        push_arg(&mut args, String::from_str("--udp"));
    }
    if opts.include_open {
        push_arg(&mut args, String::from_str("--include-open"));
    }
    assert(arg_views(args@) =~= tail_args(*opts));
    args
}

fn append_args(v: &mut Vec<String>, w: Vec<String>)
    ensures
        arg_views(final(v)@) == arg_views(old(v)@) + arg_views(w@),
{
    let mut i: usize = 0;
    let ghost wv = arg_views(w@);
    while i < w.len()
        invariant
            i <= w.len(),
            wv == arg_views(w@),
            arg_views(v@) == arg_views(old(v)@) + wv.take(i as int),
        decreases w.len() - i,
    {
        push_arg(v, w[i].clone());
        assert(wv.take(i + 1) =~= wv.take(i as int).push(w@[i as int]@));
        i += 1;
    }
    assert(wv.take(i as int) =~= wv);
}

pub fn scanner_args(interval: u64, opts: &ScanOptions) -> (r: Vec<String>)
    ensures
        arg_views(r@) == scanner_arg_list(interval, *opts),
{
    let mut args = lead_part(interval, opts);
    let ghost head = arg_views(args@);
    let mut i: usize = 0;
    while i < opts.hosts.len()
        invariant
            i <= opts.hosts.len(),
            arg_views(args@) == head + host_args(opts.hosts@.take(i as int)),
        decreases opts.hosts.len() - i,
    {
        push_arg(&mut args, String::from_str("--host"));
        push_arg(&mut args, ip_string(opts.hosts[i], '.'));
        assert(opts.hosts@.take(i + 1).drop_last() =~= opts.hosts@.take(i as int));
        i += 1;
    }
    assert(opts.hosts@.take(i as int) =~= opts.hosts@);
    let ghost head2 = arg_views(args@);
    let mut j: usize = 0;
    while j < opts.ports.len()
        invariant
            j <= opts.ports.len(),
            arg_views(args@) == head2 + port_args(opts.ports@.take(j as int)),
        decreases opts.ports.len() - j,
    {
        push_arg(&mut args, String::from_str("--port"));
        push_arg(&mut args, fmt_u64(opts.ports[j] as u64));
        assert(opts.ports@.take(j + 1).drop_last() =~= opts.ports@.take(j as int));
        j += 1;
    }
    assert(opts.ports@.take(j as int) =~= opts.ports@);
    let tail = tail_part(opts);
    append_args(&mut args, tail);
    assert(arg_views(args@) =~= scanner_arg_list(interval, *opts));
    args
}

} // verus!
