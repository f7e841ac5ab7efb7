//! Service identity and the process-manager's pure parts: service names,
//! the argument vectors services are started with and read back, uptime
//! text, addresses, and registry records.

use vstd::prelude::*;

use crate::text::{
    chars_le, chars_of, dec, eq_str, fmt_u64, nat_text, parse_u16_chars, parse_u64_chars, push_dec, push_str,
    string_of, text_le,
};

verus! {

/// The set of services that can be managed.
#[derive(Debug, Clone, Copy, PartialEq, Eq, Structural)]
pub enum ServiceKind {
    /// The real attendance bridge (pull from device, forward to HRMS).
    AtBridge,
    /// Mock ZKTeco device server for local testing.
    Zkteco,
    /// Mock HRMS webhook server for local testing.
    Hrms,
    /// Local network scanner for discovering attendance devices.
    Scanner,
}

/// The stable on-disk / CLI name of a kind.
pub open spec fn kind_name(k: ServiceKind) -> Seq<char> {
    match k {
        ServiceKind::AtBridge => "bridge"@,
        ServiceKind::Zkteco => "zkteco"@,
        ServiceKind::Hrms => "hrms"@,
        ServiceKind::Scanner => "scanner"@,
    }
}

/// The kind a name stands for (`at-bridge` is a legacy alias).
pub open spec fn kind_of_name(name: Seq<char>) -> Option<ServiceKind> {
    if name == "bridge"@ || name == "at-bridge"@ {
        Some(ServiceKind::AtBridge)
    } else if name == "zkteco"@ {
        Some(ServiceKind::Zkteco)
    } else if name == "hrms"@ {
        Some(ServiceKind::Hrms)
    } else if name == "scanner"@ {
        Some(ServiceKind::Scanner)
    } else {
        None
    }
}

impl ServiceKind {
    pub fn name(self) -> (r: &'static str)
        ensures
            r@ == kind_name(self),
    {
        match self {
            ServiceKind::AtBridge => "bridge",
            ServiceKind::Zkteco => "zkteco",
            ServiceKind::Hrms => "hrms",
            ServiceKind::Scanner => "scanner",
        }
    }

    pub fn from_name(name: &str) -> (r: Option<Self>)
        ensures
            r == kind_of_name(name@),
    {
        let n = chars_of(name);
        let n = n.as_slice();
        if eq_str(n, "bridge") || eq_str(n, "at-bridge") {
            Some(ServiceKind::AtBridge)
        } else if eq_str(n, "zkteco") {
            Some(ServiceKind::Zkteco)
        } else if eq_str(n, "hrms") {
            Some(ServiceKind::Hrms)
        } else if eq_str(n, "scanner") {
            Some(ServiceKind::Scanner)
        } else {
            None
        }
    }

    /// All services, in display order.
    pub fn all() -> (r: [ServiceKind; 4])
        ensures
            r@ == seq![ServiceKind::AtBridge, ServiceKind::Scanner, ServiceKind::Zkteco, ServiceKind::Hrms],
    {
        [ServiceKind::AtBridge, ServiceKind::Scanner, ServiceKind::Zkteco, ServiceKind::Hrms]
    }

    /// One-line description for help and `show`.
    pub fn description(self) -> (r: &'static str)
        ensures
            r@ == match self {
                ServiceKind::AtBridge => "attendance bridge (device -> HRMS)"@,
                ServiceKind::Zkteco => "mock ZKTeco device server"@,
                ServiceKind::Hrms => "mock HRMS webhook server"@,
                ServiceKind::Scanner => "LAN attendance device scanner"@,
            },
    {
        match self {
            ServiceKind::AtBridge => "attendance bridge (device -> HRMS)",
            ServiceKind::Zkteco => "mock ZKTeco device server",
            ServiceKind::Hrms => "mock HRMS webhook server",
            ServiceKind::Scanner => "LAN attendance device scanner",
        }
    }
}

/// Every kind's name reads back as that kind.
pub proof fn law_kind_name_roundtrip(k: ServiceKind)
    ensures
        kind_of_name(kind_name(k)) == Some(k),
{
    reveal_strlit("bridge");
    reveal_strlit("at-bridge");
    reveal_strlit("zkteco");
    reveal_strlit("hrms");
    reveal_strlit("scanner");
    assert("zkteco"@ != "bridge"@ && "zkteco"@ != "at-bridge"@) by {
        assert("zkteco"@[0] != "bridge"@[0]);
    }
    assert("hrms"@.len() == 4 && "bridge"@.len() == 6 && "at-bridge"@.len() == 9 && "zkteco"@.len() == 6);
    assert("hrms"@ != "bridge"@ && "hrms"@ != "at-bridge"@ && "hrms"@ != "zkteco"@);
    assert("scanner"@ != "bridge"@ && "scanner"@ != "at-bridge"@ && "scanner"@ != "zkteco"@
        && "scanner"@ != "hrms"@) by {
        assert("scanner"@[0] != "bridge"@[0]);
        assert("scanner"@[0] != "zkteco"@[0]);
    }
}

// ── Uptime ───────────────────────────────────────────────────────────────────

/// A compact uptime: days and hours, hours and minutes, minutes and seconds,
/// or seconds, by the largest non-zero unit.
pub open spec fn uptime_text(secs: int) -> Seq<char> {
    if secs < 0 {
        // Rust's division truncates toward zero: only the seconds remain.
        let r = (-secs) % 60;
        if r == 0 {
            "0s"@
        } else {
            "-"@ + crate::text::dec(r as nat) + "s"@
        }
    } else {
        uptime_parts(secs)
    }
}

/// The uptime text of a non-negative number of seconds.
pub open spec fn uptime_parts(secs: int) -> Seq<char> {
    let d = secs / 86400;
    let h = (secs % 86400) / 3600;
    let m = (secs % 3600) / 60;
    let s = secs % 60;
    if d > 0 {
        crate::text::dec_int(d) + "d"@ + crate::text::dec_int(h) + "h"@
    } else if h > 0 {
        crate::text::dec_int(h) + "h"@ + crate::text::dec_int(m) + "m"@
    } else if m > 0 {
        crate::text::dec_int(m) + "m"@ + crate::text::dec_int(s) + "s"@
    } else {
        crate::text::dec_int(s) + "s"@
    }
}

/// Format a duration in seconds as a compact uptime string (a negative one
/// keeps only its seconds, as Rust's truncating division leaves them).
pub fn format_uptime_secs(secs: i64) -> (r: String)
    ensures
        r@ == uptime_text(secs as int),
{
    if secs < 0 {
        let p: i64 = -(secs + 1);
        let u: u64 = p as u64 + 1;
        let rem: u64 = u % 60;
        if rem == 0 {
            return String::from_str("0s");
        }
        let mut out = String::from_str("-");
        crate::text::push_dec(&mut out, rem);
        push_str(&mut out, "s");
        proof {
            reveal_strlit("-");
            reveal_strlit("s");
        }
        return out;
    }
    let d = secs / 86400;
    let h = (secs % 86400) / 3600;
    let m = (secs % 3600) / 60;
    let s = secs % 60;
    let (a, ua, b, ub) = if d > 0 {
        (d, "d", h, "h")
    } else if h > 0 {
        (h, "h", m, "m")
    } else if m > 0 {
        (m, "m", s, "s")
    } else {
        (s, "s", 0, "")
    };
    let mut out = crate::text::fmt_i64(a);
    push_str(&mut out, ua);
    if d > 0 || h > 0 || m > 0 {
        let t = crate::text::fmt_i64(b);
        push_str(&mut out, t.as_str());
        push_str(&mut out, ub);
    }
    out
}

// ── Argument vectors ─────────────────────────────────────────────────────────

/// Whether `args[i]` equals `flag`.
fn arg_is(args: &[String], i: usize, flag: &str) -> (r: bool)
    requires
        i < args.len(),
    ensures
        r == (args@[i as int]@ == flag@),
{
    crate::text::str_eq(args[i].as_str(), flag)
}

/// The arguments a mock device service is started with.
pub fn zkteco_args(port: u16, records: usize) -> (r: Vec<String>)
    ensures
        r@.map_values(|a: String| a@) == seq!["--port"@, dec(port as nat), "--records"@, dec(records as nat)],
{
    let mut r: Vec<String> = Vec::new();
    r.push(String::from_str("--port"));
    r.push(fmt_u64(port as u64));
    r.push(String::from_str("--records"));
    r.push(fmt_u64(records as u64));
    assert(r@.map_values(|a: String| a@) =~= seq!["--port"@, dec(port as nat), "--records"@, dec(records as nat)]);
    r
}

/// The arguments a mock HRMS service is started with.
pub fn hrms_args(port: u16) -> (r: Vec<String>)
    ensures
        r@.map_values(|a: String| a@) == seq!["--port"@, dec(port as nat)],
{
    let mut r: Vec<String> = Vec::new();
    r.push(String::from_str("--port"));
    r.push(fmt_u64(port as u64));
    assert(r@.map_values(|a: String| a@) =~= seq!["--port"@, dec(port as nat)]);
    r
}

/// The index after a flag and its value (clamped to the end).
pub open spec fn after_pair(i: int, n: int) -> int {
    if i + 2 <= n {
        i + 2
    } else {
        n
    }
}

/// The value after a flag read as an unsigned number, when there is one
/// and it parses.
pub open spec fn flag_number(args: Seq<Seq<char>>, i: int) -> Option<nat> {
    if i + 1 < args.len() {
        nat_text(args[i + 1])
    } else {
        None
    }
}

/// The port and record count a mock device service reads from its
/// arguments (defaults 4370 and 5); each flag consumes the next argument.
pub open spec fn zkteco_settings(args: Seq<Seq<char>>, i: int, port: u16, records: nat) -> (u16, nat)
    decreases args.len() - i,
{
    if i < 0 || i >= args.len() {
        (port, records)
    } else if args[i] == "--port"@ {
        let p = match flag_number(args, i) {
            Some(v) => if v <= 65535 {
                v as u16
            } else {
                port
            },
            None => port,
        };
        zkteco_settings(args, after_pair(i, args.len() as int), p, records)
    } else if args[i] == "--records"@ {
        let r = match flag_number(args, i) {
            Some(v) => if v <= usize::MAX {
                v
            } else {
                records
            },
            None => records,
        };
        zkteco_settings(args, after_pair(i, args.len() as int), port, r)
    } else {
        zkteco_settings(args, i + 1, port, records)
    }
}

fn next_u64(args: &[String], i: usize) -> (r: Option<u64>)
    ensures
        match r {
            Some(v) => (i + 1 < args.len()) && nat_text(args@[i + 1]@) == Some(v as nat),
            None => !(i + 1 < args.len() && (nat_text(args@[i + 1]@) matches Some(n) && n <= u64::MAX)),
        },
{
    if i < args.len() && args.len() - i > 1 {
        let cs = chars_of(args[i + 1].as_str());
        parse_u64_chars(cs.as_slice())
    } else {
        None
    }
}

pub fn parse_zkteco(rest: &[String]) -> (r: (u16, usize))
    ensures
        (r.0, r.1 as nat) == zkteco_settings(rest@.map_values(|a: String| a@), 0, 4370, 5),
{
    let ghost av = rest@.map_values(|a: String| a@);
    let mut port: u16 = 4370;
    let mut records: usize = 5;
    let mut i: usize = 0;
    while i < rest.len()
        invariant
            av == rest@.map_values(|a: String| a@),
            zkteco_settings(av, 0, 4370, 5) == zkteco_settings(av, i as int, port, records as nat),
        decreases rest.len() - i,
    {
        assert(av[i as int] == rest@[i as int]@);
        if i + 1 < rest.len() {
            assert(av[i + 1] == rest@[i + 1]@);
        }
        if arg_is(rest, i, "--port") {
            match next_u64(rest, i) {
                Some(v) => {
                    if v <= 65535 {
                        port = v as u16;
                    }
                },
                None => {},
            }
            i = if rest.len() - i >= 2 { i + 2 } else { rest.len() };
        } else if arg_is(rest, i, "--records") {
            match next_u64(rest, i) {
                Some(v) => {
                    if v <= usize::MAX as u64 {
                        records = v as usize;
                    }
                },
                None => {},
            }
            i = if rest.len() - i >= 2 { i + 2 } else { rest.len() };
        } else {
            i += 1;
        }
    }
    (port, records)
}

/// A mock device service reads back the port and record count it was
/// started with.
pub proof fn law_zkteco_args_roundtrip(port: u16, records: usize)
    ensures
        zkteco_settings(seq!["--port"@, dec(port as nat), "--records"@, dec(records as nat)], 0, 4370, 5) == (
            port,
            records as nat,
        ),
{
    let args = seq!["--port"@, dec(port as nat), "--records"@, dec(records as nat)];
    crate::text::lemma_dec_digits(port as nat);
    crate::text::lemma_dec_digits(records as nat);
    reveal_strlit("--port");
    reveal_strlit("--records");
    assert("--records"@.len() == 9);
    assert("--port"@.len() == 6);
    assert(args[2] != "--port"@);
    assert(flag_number(args, 0) == Some(port as nat));
    assert(flag_number(args, 2) == Some(records as nat));
    assert(zkteco_settings(args, 4, port, records as nat) == (port, records as nat));
    assert(zkteco_settings(args, 2, port, 5) == zkteco_settings(args, 4, port, records as nat));
    assert(zkteco_settings(args, 0, 4370, 5) == zkteco_settings(args, 2, port, 5));
}

/// The port a mock HRMS service reads from its arguments (default 8800).
pub open spec fn hrms_setting(args: Seq<Seq<char>>, i: int, port: u16) -> u16
    decreases args.len() - i,
{
    if i < 0 || i >= args.len() {
        port
    } else if args[i] == "--port"@ {
        let p = match flag_number(args, i) {
            Some(v) => if v <= 65535 {
                v as u16
            } else {
                port
            },
            None => port,
        };
        hrms_setting(args, after_pair(i, args.len() as int), p)
    } else {
        hrms_setting(args, i + 1, port)
    }
}

pub fn parse_hrms(rest: &[String]) -> (r: u16)
    ensures
        r == hrms_setting(rest@.map_values(|a: String| a@), 0, 8800),
{
    let ghost av = rest@.map_values(|a: String| a@);
    let mut port: u16 = 8800;
    let mut i: usize = 0;
    while i < rest.len()
        invariant
            av == rest@.map_values(|a: String| a@),
            hrms_setting(av, 0, 8800) == hrms_setting(av, i as int, port),
        decreases rest.len() - i,
    {
        assert(av[i as int] == rest@[i as int]@);
        if i + 1 < rest.len() {
            assert(av[i + 1] == rest@[i + 1]@);
        }
        if arg_is(rest, i, "--port") {
            match next_u64(rest, i) {
                Some(v) => {
                    if v <= 65535 {
                        port = v as u16;
                    }
                },
                None => {},
            }
            i = if rest.len() - i >= 2 { i + 2 } else { rest.len() };
        } else {
            i += 1;
        }
    }
    port
}

/// A mock HRMS service reads back the port it was started with.
pub proof fn law_hrms_args_roundtrip(port: u16)
    ensures
        hrms_setting(seq!["--port"@, dec(port as nat)], 0, 8800) == port,
{
    let args = seq!["--port"@, dec(port as nat)];
    crate::text::lemma_dec_digits(port as nat);
    assert(hrms_setting(args, 2, port) == port);
}

/// The config path, interval and poll switch a bridge service reads from its
/// arguments; a `--config` or `--interval` without a usable value resets it.
pub open spec fn bridge_settings(args: Seq<Seq<char>>, i: int, config: Option<Seq<char>>, interval: Option<nat>, no_poll: bool) -> (Option<Seq<char>>, Option<nat>, bool)
    decreases args.len() - i,
{
    if i < 0 || i >= args.len() {
        (config, interval, no_poll)
    } else if args[i] == "--config"@ {
        let c = if i + 1 < args.len() {
            Some(args[i + 1])
        } else {
            None
        };
        bridge_settings(args, after_pair(i, args.len() as int), c, interval, no_poll)
    } else if args[i] == "--interval"@ {
        let v = match flag_number(args, i) {
            Some(n) => if n <= u64::MAX {
                Some(n)
            } else {
                None
            },
            None => None,
        };
        bridge_settings(args, after_pair(i, args.len() as int), config, v, no_poll)
    } else if args[i] == "--no-poll"@ {
        bridge_settings(args, i + 1, config, interval, true)
    } else {
        bridge_settings(args, i + 1, config, interval, no_poll)
    }
}

pub fn parse_bridge(rest: &[String]) -> (r: (Option<String>, Option<u64>, bool))
    ensures
        ((match r.0 {
            Some(c) => Some(c@),
            None => None,
        }), (match r.1 {
            Some(v) => Some(v as nat),
            None => None,
        }), r.2) == bridge_settings(rest@.map_values(|a: String| a@), 0, None, None, false),
{
    let ghost av = rest@.map_values(|a: String| a@);
    let mut config: Option<String> = None;
    let mut interval: Option<u64> = None;
    let mut no_poll = false;
    let mut i: usize = 0;
    while i < rest.len()
        invariant
            av == rest@.map_values(|a: String| a@),
            bridge_settings(av, 0, None, None, false) == bridge_settings(
                av,
                i as int,
                match config {
                    Some(c) => Some(c@),
                    None => None,
                },
                match interval {
                    Some(v) => Some(v as nat),
                    None => None,
                },
                no_poll,
            ),
        decreases rest.len() - i,
    {
        assert(av[i as int] == rest@[i as int]@);
        if i + 1 < rest.len() {
            assert(av[i + 1] == rest@[i + 1]@);
        }
        if arg_is(rest, i, "--config") {
            config = if rest.len() - i >= 2 {
                Some(rest[i + 1].clone())
            } else {
                None
            };
            i = if rest.len() - i >= 2 { i + 2 } else { rest.len() };
        } else if arg_is(rest, i, "--interval") {
            interval = next_u64(rest, i);
            i = if rest.len() - i >= 2 { i + 2 } else { rest.len() };
        } else if arg_is(rest, i, "--no-poll") {
            no_poll = true;
            i += 1;
        } else {
            i += 1;
        }
    }
    (config, interval, no_poll)
}

/// The `--log-path <value>` pair removed from a child's arguments: the path
/// (the last pair's) and the remaining arguments in order.
pub open spec fn split_log_path(args: Seq<Seq<char>>, i: int, path: Option<Seq<char>>, rest: Seq<Seq<char>>) -> (Option<Seq<char>>, Seq<Seq<char>>)
    decreases args.len() - i,
{
    if i < 0 || i >= args.len() {
        (path, rest)
    } else if args[i] == "--log-path"@ && i + 1 < args.len() {
        split_log_path(args, i + 2, Some(args[i + 1]), rest)
    } else {
        split_log_path(args, i + 1, path, rest.push(args[i]))
    }
}

pub fn extract_log_path(args: &[String]) -> (r: (Option<String>, Vec<String>))
    ensures
        ((match r.0 {
            Some(p) => Some(p@),
            None => None,
        }), r.1@.map_values(|a: String| a@)) == split_log_path(args@.map_values(|a: String| a@), 0, None, seq![]),
{
    let ghost av = args@.map_values(|a: String| a@);
    let mut path: Option<String> = None;
    let mut rest: Vec<String> = Vec::new();
    let mut i: usize = 0;
    assert(rest@.map_values(|a: String| a@) =~= Seq::<Seq<char>>::empty());
    while i < args.len()
        invariant
            av == args@.map_values(|a: String| a@),
            split_log_path(av, 0, None, seq![]) == split_log_path(
                av,
                i as int,
                match path {
                    Some(p) => Some(p@),
                    None => None,
                },
                rest@.map_values(|a: String| a@),
            ),
        decreases args.len() - i,
    {
        assert(av[i as int] == args@[i as int]@);
        if i + 1 < args.len() {
            assert(av[i + 1] == args@[i + 1]@);
        }
        if arg_is(args, i, "--log-path") && args.len() - i >= 2 {
            path = Some(args[i + 1].clone());
            i += 2;
        } else {
            let ghost before = rest@.map_values(|a: String| a@);
            rest.push(args[i].clone());
            assert(rest@.map_values(|a: String| a@) =~= before.push(av[i as int]));
            i += 1;
        }
    }
    (path, rest)
}

// ── Addresses ────────────────────────────────────────────────────────────────

/// Where a running service can be reached, given the LAN host to advertise.
pub open spec fn service_address(kind: ServiceKind, port: Option<u16>, lan_host: Seq<char>) -> Option<Seq<char>> {
    if kind == ServiceKind::Scanner {
        Some("local network scanner"@)
    } else {
        match port {
            None => None,
            Some(p) => Some(
                match kind {
                    ServiceKind::Zkteco => lan_host + ":"@ + dec(p as nat),
                    ServiceKind::Hrms => "http://"@ + lan_host + ":"@ + dec(p as nat),
                    _ => "http://127.0.0.1:"@ + dec(p as nat),
                },
            ),
        }
    }
}

pub fn service_url(kind: ServiceKind, port: Option<u16>, lan_host: &str) -> (r: Option<String>)
    ensures
        match r {
            Some(u) => service_address(kind, port, lan_host@) == Some(u@),
            None => service_address(kind, port, lan_host@) is None,
        },
{
    if kind == ServiceKind::Scanner {
        return Some(String::from_str("local network scanner"));
    }
    let p = match port {
        Some(p) => p,
        None => {
            return None;
        },
    };
    let mut s = match kind {
        ServiceKind::Zkteco => String::from_str(lan_host),
        ServiceKind::Hrms => {
            let mut s = String::from_str("http://");
            push_str(&mut s, lan_host);
            s
        },
        _ => String::from_str("http://127.0.0.1"),
    };
    push_str(&mut s, ":");
    push_dec(&mut s, p as u64);
    proof {
        reveal_strlit("http://127.0.0.1");
        reveal_strlit("http://127.0.0.1:");
        reveal_strlit(":");
        assert("http://127.0.0.1"@ + ":"@ =~= "http://127.0.0.1:"@);
    }
    assert(s@ =~= service_address(kind, port, lan_host@)->0);
    Some(s)
}

/// Hints about how to use a running service's address.
pub open spec fn address_hint_lines(kind: ServiceKind, url: Option<Seq<char>>) -> Seq<Seq<char>> {
    match url {
        None => seq![],
        Some(u) => match kind {
            ServiceKind::Zkteco => seq!["(use this host/port as a device in `fbsy bridge config setup`)"@],
            ServiceKind::Hrms => seq![
                "POST "@ + u + "/webhook   ← attendance events"@,
                "GET  "@ + u + "/events    ← inspect received events"@,
            ],
            ServiceKind::AtBridge => seq![
                "GET  "@ + u + "/health    ← status + last sync result"@,
                "POST "@ + u + "/sync      ← trigger a sync"@,
            ],
            ServiceKind::Scanner => seq!["Use `fbsy logs scanner` to see discovered attendance devices"@],
        },
    }
}

fn framed(head: &str, u: &str, tail: &str) -> (s: String)
    ensures
        s@ == head@ + u@ + tail@,
{
    let mut s = String::from_str(head);
    push_str(&mut s, u);
    push_str(&mut s, tail);
    s
}

pub fn address_hints(kind: ServiceKind, url: Option<&str>) -> (r: Vec<String>)
    ensures
        r@.map_values(|h: String| h@) == address_hint_lines(kind, match url {
            Some(u) => Some(u@),
            None => None,
        }),
{
    let mut r: Vec<String> = Vec::new();
    match url {
        None => {},
        Some(u) => match kind {
            ServiceKind::Zkteco => {
                r.push(String::from_str("(use this host/port as a device in `fbsy bridge config setup`)"));
            },
            ServiceKind::Hrms => {
                r.push(framed("POST ", u, "/webhook   ← attendance events"));
                r.push(framed("GET  ", u, "/events    ← inspect received events"));
            },
            ServiceKind::AtBridge => {
                r.push(framed("GET  ", u, "/health    ← status + last sync result"));
                r.push(framed("POST ", u, "/sync      ← trigger a sync"));
            },
            ServiceKind::Scanner => {
                r.push(String::from_str("Use `fbsy logs scanner` to see discovered attendance devices"));
            },
        },
    }
    assert(r@.map_values(|h: String| h@) =~= address_hint_lines(kind, match url {
        Some(u) => Some(u@),
        None => None,
    }));
    r
}

// ── Status records ───────────────────────────────────────────────────────────

/// Live status of one service instance.
#[derive(Debug, Clone)]
pub struct ServiceStatus {
    /// Instance name (registry key).
    pub name: String,
    pub kind: ServiceKind,
    pub running: bool,
    pub pid: Option<u32>,
    pub port: Option<u16>,
    pub url: Option<String>,
    pub uptime_secs: Option<i64>,
}

/// One service instance's recorded runtime state.
#[derive(Debug, Clone)]
pub struct RegistryEntry {
    /// Instance name (registry/log key; default = the kind's name).
    pub service: String,
    /// Service kind that decides which loop runs.
    pub kind: String,
    /// OS process id of the detached service.
    pub pid: u32,
    /// Port the service listens on, if known.
    pub port: Option<u16>,
    /// Human-facing address/URL where the service can be reached.
    pub url: Option<String>,
    /// Flags the service was started with.
    pub args: Vec<String>,
    /// RFC 3339 UTC timestamp when the service was started.
    pub started_at: String,
    /// Executable path used to spawn.
    pub exe: String,
}

impl RegistryEntry {
    /// The service kind for this instance: its recorded kind, else its
    /// instance name read as a kind (older registry files).
    pub fn kind(&self) -> (r: Option<ServiceKind>)
        ensures
            r == match kind_of_name(self.kind@) {
                Some(k) => Some(k),
                None => kind_of_name(self.service@),
            },
    {
        match ServiceKind::from_name(self.kind.as_str()) {
            Some(k) => Some(k),
            None => ServiceKind::from_name(self.service.as_str()),
        }
    }
}

/// The kind a registry entry records (by name for older files).
pub open spec fn entry_kind(e: RegistryEntry) -> Option<ServiceKind> {
    match kind_of_name(e.kind@) {
        Some(k) => Some(k),
        None => kind_of_name(e.service@),
    }
}

/// Where a kind comes in listings: the bridge, the mock device, the mock
/// HRMS, the scanner, then entries of no known kind.
pub open spec fn kind_rank(k: Option<ServiceKind>) -> u8 {
    match k {
        Some(ServiceKind::AtBridge) => 0,
        Some(ServiceKind::Zkteco) => 1,
        Some(ServiceKind::Hrms) => 2,
        Some(ServiceKind::Scanner) => 3,
        None => 255,
    }
}

/// Whether `a` may be listed before `b`: by kind, then by instance name.
pub open spec fn listed_before(a: RegistryEntry, b: RegistryEntry) -> bool {
    kind_rank(entry_kind(a)) < kind_rank(entry_kind(b)) || (kind_rank(entry_kind(a)) == kind_rank(entry_kind(b))
        && text_le(a.service@, b.service@))
}

/// `e` inserted after every entry that may be listed before it.
pub open spec fn insert_listed(s: Seq<RegistryEntry>, e: RegistryEntry) -> Seq<RegistryEntry>
    decreases s.len(),
{
    if s.len() == 0 {
        seq![e]
    } else if listed_before(s.last(), e) {
        s.push(e)
    } else {
        insert_listed(s.drop_last(), e).push(s.last())
    }
}

/// The entries in listing order: by kind, then by instance name, entries
/// that tie keeping their order.
pub open spec fn listing_order(s: Seq<RegistryEntry>) -> Seq<RegistryEntry>
    decreases s.len(),
{
    if s.len() == 0 {
        s
    } else {
        insert_listed(listing_order(s.drop_last()), s.last())
    }
}

proof fn lemma_insert_listed_at(s: Seq<RegistryEntry>, e: RegistryEntry, j: int)
    requires
        0 <= j <= s.len(),
        forall|k: int| j <= k < s.len() ==> !listed_before(#[trigger] s[k], e),
        j == 0 || listed_before(s[j - 1], e),
    ensures
        insert_listed(s, e) == s.insert(j, e),
    decreases s.len(),
{
    if s.len() == 0 {
        assert(s.insert(j, e) =~= seq![e]);
    } else if j == s.len() {
        assert(s.insert(j, e) =~= s.push(e));
    } else {
        let t = s.drop_last();
        assert(!listed_before(s[s.len() - 1], e));
        assert forall|k: int| j <= k < t.len() implies !listed_before(#[trigger] t[k], e) by {
            assert(t[k] == s[k]);
        }
        lemma_insert_listed_at(t, e, j);
        assert(t.insert(j, e).push(s.last()) =~= s.insert(j, e));
    }
}

fn rank_of(e: &RegistryEntry) -> (r: u8)
    ensures
        r == kind_rank(entry_kind(*e)),
{
    match e.kind() {
        Some(ServiceKind::AtBridge) => 0,
        Some(ServiceKind::Zkteco) => 1,
        Some(ServiceKind::Hrms) => 2,
        Some(ServiceKind::Scanner) => 3,
        None => 255,
    }
}

fn before(a: &RegistryEntry, b: &RegistryEntry) -> (r: bool)
    ensures
        r == listed_before(*a, *b),
{
    let ra = rank_of(a);
    let rb = rank_of(b);
    if ra != rb {
        return ra < rb;
    }
    let na = chars_of(a.service.as_str());
    let nb = chars_of(b.service.as_str());
    chars_le(na.as_slice(), nb.as_slice())
}

/// Orders registry entries for listing: by kind (bridge, mock device, mock
/// HRMS, scanner, unknown), then by instance name.
pub fn registry_order(entries: Vec<RegistryEntry>) -> (r: Vec<RegistryEntry>)
    ensures
        r@ == listing_order(entries@),
{
    let ghost orig = entries@;
    let mut rest = entries;
    let mut out: Vec<RegistryEntry> = Vec::new();
    let ghost mut i: int = 0;
    assert(orig.take(0) =~= Seq::<RegistryEntry>::empty());
    assert(orig.skip(0) =~= orig);
    while rest.len() > 0
        invariant
            0 <= i <= orig.len(),
            rest.len() == orig.len() - i,
            rest@ == orig.skip(i),
            out@ == listing_order(orig.take(i)),
        decreases rest.len(),
    {
        let ghost prev = rest@;
        let e = rest.remove(0);
        proof {
            assert(e == prev[0]);
            assert(rest@ =~= prev.drop_first());
            assert(orig[i] == e);
            assert(orig.skip(i).drop_first() =~= orig.skip(i + 1));
            assert(orig.take(i + 1).drop_last() =~= orig.take(i));
        }
        let mut j = out.len();
        while j > 0 && !before(&out[j - 1], &e)
            invariant
                j <= out.len(),
                forall|k: int| j <= k < out.len() ==> !listed_before(#[trigger] out@[k], e),
            decreases j,
        {
            j -= 1;
        }
        proof {
            lemma_insert_listed_at(out@, e, j as int);
        }
        out.insert(j, e);
        proof {
            i = i + 1;
        }
    }
    assert(orig.take(i) =~= orig);
    out
}

} // verus!
