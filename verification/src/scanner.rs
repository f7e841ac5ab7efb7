//! The LAN scanner's pure parts: which ports and hosts a scan covers, how
//! ports are labelled, how findings are named, summarized and suggested as
//! device configuration. Probing sockets stays with the caller.

use vstd::prelude::*;

use crate::config::BridgeDeviceConfig;
use crate::text::{
    chars_of, dec, find_char, floor_prefix, floor_prefix_bytes, nat_text, parse_u16_chars,
    parse_u64_chars, push_chars, push_dec, push_str, slice_chars, split_chars, split_on, string_of,
    trim, trim_chars, trim_str, utf8_len, byte_len_upto,
};

verus! {

/// Default ZKTeco port.
pub const DEFAULT_PORT: u16 = 4370;

/// The common server ports scanned with `--all-ports`.
pub open spec fn common_ports() -> Seq<u16> {
    seq![22u16, 80, 443, 3000, 3306, 4370, 5432, 6379, 7431, 8080, 8443, 8800, 9090]
}

pub fn common_port_list() -> (r: Vec<u16>)
    ensures
        r@ == common_ports(),
{
    let r: Vec<u16> = vec![22u16, 80, 443, 3000, 3306, 4370, 5432, 6379, 7431, 8080, 8443, 8800, 9090];
    assert(r@ =~= common_ports());
    r
}

/// Scan settings. Hosts are IPv4 addresses as numbers.
#[derive(Debug, Clone)]
pub struct ScanOptions {
    pub cidr: Option<String>,
    pub hosts: Vec<u32>,
    /// Ports to scan. When empty, the ZKTeco port.
    pub ports: Vec<u16>,
    /// Scan all common ports.
    pub all_ports: bool,
    /// Allow ranges wider than /24 (up to /16).
    pub wide: bool,
    pub scan_timeout_ms: u64,
    pub device_timeout_secs: u64,
    pub device_password: i32,
    pub force_udp: bool,
    pub include_open: bool,
    pub json: bool,
}

impl Default for ScanOptions {
    fn default() -> (r: Self)
        ensures
            r.cidr is None,
            r.hosts@.len() == 0,
            r.ports@ == seq![DEFAULT_PORT],
            !r.all_ports && !r.wide && !r.force_udp && !r.include_open && !r.json,
            r.scan_timeout_ms == 350,
            r.device_timeout_secs == 2,
            r.device_password == 0,
    {
        let ports: Vec<u16> = vec![DEFAULT_PORT];
        ScanOptions {
            cidr: None,
            hosts: Vec::new(),
            ports,
            all_ports: false,
            wide: false,
            scan_timeout_ms: 350,
            device_timeout_secs: 2,
            device_password: 0,
            force_udp: false,
            include_open: false,
            json: false,
        }
    }
}

impl ScanOptions {
    /// The ports a scan covers: all common ports, the chosen ports, or the
    /// ZKTeco port.
    pub fn effective_ports(&self) -> (r: Vec<u16>)
        ensures
            r@ == if self.all_ports {
                common_ports()
            } else if self.ports@.len() == 0 {
                seq![DEFAULT_PORT]
            } else {
                self.ports@
            },
    {
        if self.all_ports {
            return common_port_list();
        }
        if self.ports.len() == 0 {
            let r: Vec<u16> = vec![DEFAULT_PORT];
            return r;
        }
        let mut r: Vec<u16> = Vec::new();
        let mut i: usize = 0;
        while i < self.ports.len()
            invariant
                i <= self.ports.len(),
                r@ == self.ports@.take(i as int),
            decreases self.ports.len() - i,
        {
            r.push(self.ports[i]);
            i += 1;
            assert(r@ =~= self.ports@.take(i as int));
        }
        assert(self.ports@.take(self.ports.len() as int) =~= self.ports@);
        r
    }
}

// ── Ports ────────────────────────────────────────────────────────────────────

/// Human label for a well-known port.
pub open spec fn port_name(port: u16) -> Seq<char> {
    if port == 22 {
        "ssh"@
    } else if port == 80 {
        "http"@
    } else if port == 443 {
        "https"@
    } else if port == 3000 {
        "http-dev"@
    } else if port == 3306 {
        "mysql"@
    } else if port == 4370 {
        "zkteco"@
    } else if port == 5432 {
        "postgresql"@
    } else if port == 6379 {
        "redis"@
    } else if port == 7431 {
        "fbsy-bridge"@
    } else if port == 8080 {
        "http-alt"@
    } else if port == 8443 {
        "https-alt"@
    } else if port == 8800 {
        "fbsy-hrms"@
    } else if port == 9090 {
        "http-mgmt"@
    } else {
        "open"@
    }
}

pub fn port_label(port: u16) -> (r: &'static str)
    ensures
        r@ == port_name(port),
{
    match port {
        22 => "ssh",
        80 => "http",
        443 => "https",
        3000 => "http-dev",
        3306 => "mysql",
        4370 => "zkteco",
        5432 => "postgresql",
        6379 => "redis",
        7431 => "fbsy-bridge",
        8080 => "http-alt",
        8443 => "https-alt",
        8800 => "fbsy-hrms",
        9090 => "http-mgmt",
        _ => "open",
    }
}

/// The ports of a comma-separated list that parse (after trimming), in order.
pub open spec fn csv_ports(parts: Seq<Seq<char>>) -> Seq<u16>
    decreases parts.len(),
{
    if parts.len() == 0 {
        seq![]
    } else {
        let prev = csv_ports(parts.drop_last());
        match nat_text(trim(parts.last())) {
            Some(p) => if p <= 65535 {
                prev.push(p as u16)
            } else {
                prev
            },
            None => prev,
        }
    }
}

/// Parse a comma-separated port list like `80,443,3000`, skipping entries
/// that are not ports.
pub fn parse_ports_csv(csv: &str) -> (r: Vec<u16>)
    ensures
        r@ == csv_ports(split_on(csv@, ',')),
{
    let cs = chars_of(csv);
    let parts = split_chars(cs.as_slice(), ',');
    let ghost pv = parts@.map_values(|p: Vec<char>| p@);
    let mut r: Vec<u16> = Vec::new();
    let mut i: usize = 0;
    while i < parts.len()
        invariant
            i <= parts.len(),
            pv == parts@.map_values(|p: Vec<char>| p@),
            r@ == csv_ports(pv.take(i as int)),
        decreases parts.len() - i,
    {
        assert(pv.take(i + 1).drop_last() =~= pv.take(i as int));
        assert(pv.take(i + 1).last() == parts@[i as int]@);
        let t = trim_chars(parts[i].as_slice());
        match parse_u16_chars(t.as_slice()) {
            Some(p) => {
                r.push(p);
            },
            None => {},
        }
        i += 1;
    }
    assert(pv.take(parts.len() as int) =~= pv);
    r
}

/// `<port> (<label>)` joined by `, ` for up to five ports; otherwise a count
/// and the first and last port.
pub open spec fn port_list_text(ports: Seq<u16>) -> Seq<char> {
    if ports.len() <= 5 {
        labelled_ports(ports)
    } else {
        dec(ports.len()) + " ports ("@ + dec(ports[0] as nat) + "–"@ + dec(ports.last() as nat) + ")"@
    }
}

pub open spec fn labelled_ports(ports: Seq<u16>) -> Seq<char>
    decreases ports.len(),
{
    if ports.len() == 0 {
        seq![]
    } else if ports.len() == 1 {
        dec(ports[0] as nat) + " ("@ + port_name(ports[0]) + ")"@
    } else {
        labelled_ports(ports.drop_last()) + ", "@ + dec(ports.last() as nat) + " ("@ + port_name(ports.last()) + ")"@
    }
}

pub fn format_port_list(ports: &[u16]) -> (r: String)
    ensures
        r@ == port_list_text(ports@),
{
    let mut s = String::new();
    if ports.len() <= 5 {
        proof {
            reveal_strlit("");
        }
        let mut i: usize = 0;
        while i < ports.len()
            invariant
                i <= ports.len(),
                s@ == labelled_ports(ports@.take(i as int)),
            decreases ports.len() - i,
        {
            if i > 0 {
                push_str(&mut s, ", ");
            }
            push_dec(&mut s, ports[i] as u64);
            push_str(&mut s, " (");
            push_str(&mut s, port_label(ports[i]));
            push_str(&mut s, ")");
            proof {
                assert(ports@.take(i + 1).drop_last() =~= ports@.take(i as int));
                if i == 0 {
                    assert(labelled_ports(ports@.take(0)) =~= Seq::<char>::empty());
                }
                assert(s@ =~= labelled_ports(ports@.take(i + 1)));
            }
            i += 1;
        }
        assert(ports@.take(ports.len() as int) =~= ports@);
        s
    } else {
        push_dec(&mut s, ports.len() as u64);
        push_str(&mut s, " ports (");
        push_dec(&mut s, ports[0] as u64);
        push_str(&mut s, "–");
        push_dec(&mut s, ports[ports.len() - 1] as u64);
        push_str(&mut s, ")");
        s
    }
}

// ── Addresses ────────────────────────────────────────────────────────────────

/// The dotted-quad text of an IPv4 address, with `sep` between octets.
pub open spec fn ip_text(ip: u32, sep: char) -> Seq<char> {
    dec(((ip / 16777216) % 256) as nat) + seq![sep] + dec(((ip / 65536) % 256) as nat) + seq![sep] + dec(
        ((ip / 256) % 256) as nat,
    ) + seq![sep] + dec((ip % 256) as nat)
}

/// The address as text (`a.b.c.d`).
pub fn ip_string(ip: u32, sep: char) -> (r: String)
    ensures
        r@ == ip_text(ip, sep),
{
    let mut s = String::new();
    push_dec(&mut s, ((ip / 16777216) % 256) as u64);
    crate::text::push_char(&mut s, sep);
    push_dec(&mut s, ((ip / 65536) % 256) as u64);
    crate::text::push_char(&mut s, sep);
    push_dec(&mut s, ((ip / 256) % 256) as u64);
    crate::text::push_char(&mut s, sep);
    push_dec(&mut s, (ip % 256) as u64);
    proof {
        reveal_strlit("");
    }
    assert(s@ =~= ip_text(ip, sep));
    s
}

/// A device code from a serial (letters and digits upper-cased, anything
/// else `-`), or `ZK-a-b-c-d` from the address when there is no serial.
pub open spec fn device_code_for(serial: Option<Seq<char>>, ip: u32) -> Seq<char> {
    match serial {
        Some(s) if trim(s).len() > 0 => trim(s).map_values(
            |c: char|
                if 48 <= c as u32 <= 57 || 65 <= c as u32 <= 90 {
                    c
                } else if 97 <= c as u32 <= 122 {
                    crate::text::upper(c)
                } else {
                    '-'
                },
        ),
        _ => "ZK-"@ + ip_text(ip, '-'),
    }
}

pub fn suggested_device_code(serial: Option<&str>, ip: u32) -> (r: String)
    ensures
        r@ == device_code_for(
            match serial {
                Some(s) => Some(s@),
                None => None,
            },
            ip,
        ),
{
    match serial {
        Some(s) => {
            let t = trim_str(s);
            let tc = chars_of(t.as_str());
            if tc.len() > 0 {
                let mut out: Vec<char> = Vec::new();
                let mut i: usize = 0;
                while i < tc.len()
                    invariant
                        i <= tc.len(),
                        out@ == tc@.take(i as int).map_values(
                            |c: char|
                                if 48 <= c as u32 <= 57 || 65 <= c as u32 <= 90 {
                                    c
                                } else if 97 <= c as u32 <= 122 {
                                    crate::text::upper(c)
                                } else {
                                    '-'
                                },
                        ),
                    decreases tc.len() - i,
                {
                    let c = tc[i];
                    let u = c as u32;
                    let m = if (48 <= u && u <= 57) || (65 <= u && u <= 90) {
                        c
                    } else if 97 <= u && u <= 122 {
                        crate::text::to_upper(c)
                    } else {
                        '-'
                    };
                    out.push(m);
                    i += 1;
                    assert(out@ =~= tc@.take(i as int).map_values(
                        |c: char|
                            if 48 <= c as u32 <= 57 || 65 <= c as u32 <= 90 {
                                c
                            } else if 97 <= c as u32 <= 122 {
                                crate::text::upper(c)
                            } else {
                                '-'
                            },
                    ));
                }
                assert(tc@.take(tc.len() as int) =~= tc@);
                return string_of(out.as_slice());
            }
        },
        None => {},
    }
    let mut r = String::from_str("ZK-");
    let ip_part = ip_string(ip, '-');
    push_str(&mut r, ip_part.as_str());
    r
}


// ── Address ranges ───────────────────────────────────────────────────────────

/// One decimal octet as std's IPv4 parser reads it: one to three digits, no
/// leading zero, at most 255.
pub open spec fn octet_value(s: Seq<char>) -> Option<nat> {
    if 1 <= s.len() <= 3 && crate::text::all_digits(s) && !(s.len() > 1 && s[0] == '0')
        && crate::text::digits_value(s) <= 255 {
        Some(crate::text::digits_value(s))
    } else {
        None
    }
}

/// A dotted-quad IPv4 address as a number.
pub open spec fn ipv4_value(s: Seq<char>) -> Option<u32> {
    let parts = split_on(s, '.');
    if parts.len() != 4 {
        None
    } else {
        match (octet_value(parts[0]), octet_value(parts[1]), octet_value(parts[2]), octet_value(parts[3])) {
            (Some(a), Some(b), Some(c), Some(d)) => Some((a * 16777216 + b * 65536 + c * 256 + d) as u32),
            _ => None,
        }
    }
}

fn parse_octet(s: &[char]) -> (r: Option<u32>)
    ensures
        match r {
            Some(v) => octet_value(s@) == Some(v as nat),
            None => octet_value(s@) is None,
        },
{
    if s.len() < 1 || s.len() > 3 || (s.len() > 1 && s[0] == '0') {
        return None;
    }
    match parse_u64_chars(s) {
        Some(v) => {
            if s[0] == '+' {
                assert(!crate::text::is_digit(s@[0]));
                return None;
            }
            proof {
                assert(s@.drop_first() != s@ || true);
            }
            if v <= 255 {
                Some(v as u32)
            } else {
                None
            }
        },
        None => None,
    }
}

pub fn parse_ipv4(s: &str) -> (r: Option<u32>)
    ensures
        r == ipv4_value(s@),
{
    let cs = chars_of(s);
    let parts = split_chars(cs.as_slice(), '.');
    let ghost pv = parts@.map_values(|p: Vec<char>| p@);
    if parts.len() != 4 {
        return None;
    }
    assert(pv[0] == parts@[0]@ && pv[1] == parts@[1]@ && pv[2] == parts@[2]@ && pv[3] == parts@[3]@);
    let a = match parse_octet(parts[0].as_slice()) {
        Some(v) => v,
        None => {
            return None;
        },
    };
    let b = match parse_octet(parts[1].as_slice()) {
        Some(v) => v,
        None => {
            return None;
        },
    };
    let c = match parse_octet(parts[2].as_slice()) {
        Some(v) => v,
        None => {
            return None;
        },
    };
    let d = match parse_octet(parts[3].as_slice()) {
        Some(v) => v,
        None => {
            return None;
        },
    };
    Some(a * 16777216 + b * 65536 + c * 256 + d)
}

/// What `str::parse::<u32>` says of a text: the number, or std's message.
pub open spec fn u32_parse(s: Seq<char>) -> Result<u32, Seq<char>> {
    match nat_text(s) {
        Some(n) => if n <= u32::MAX {
            Ok(n as u32)
        } else {
            Err("number too large to fit in target type"@)
        },
        None => if s.len() == 0 {
            Err("cannot parse integer from empty string"@)
        } else {
            Err("invalid digit found in string"@)
        },
    }
}

fn parse_u32_text(s: &[char]) -> (r: Result<u32, String>)
    ensures
        match r {
            Ok(v) => u32_parse(s@) == Ok::<u32, Seq<char>>(v),
            Err(m) => u32_parse(s@) == Err::<u32, Seq<char>>(m@),
        },
{
    match parse_u64_chars(s) {
        Some(n) => if n <= 4294967295 {
            Ok(n as u32)
        } else {
            Err(String::from_str("number too large to fit in target type"))
        },
        None => {
            if s.len() == 0 {
                Err(String::from_str("cannot parse integer from empty string"))
            } else if crate::text::is_nat_text(s) {
                Err(String::from_str("number too large to fit in target type"))
            } else {
                Err(String::from_str("invalid digit found in string"))
            }
        },
    }
}

/// The usable hosts of the network `base/prefix`: every address in the
/// block, without the network and broadcast addresses when it has more
/// than two.
pub open spec fn block_hosts(base: u32, prefix: u32) -> Seq<u32>
    recommends
        16 <= prefix <= 32,
{
    let k = (32 - prefix) as u32;
    let network = base & (0xffffffffu32 << k);
    let total = (1u32 << k) as int;
    if total > 2 {
        Seq::new((total - 2) as nat, |i: int| (network + i + 1) as u32)
    } else {
        Seq::new(total as nat, |i: int| (network + i) as u32)
    }
}

/// The message for a range wider than /24 without `--wide`.
pub open spec fn wide_text(prefix: u32) -> Seq<char> {
    "network /"@ + dec(prefix as nat) + " has "@ + dec((1u32 << (32 - prefix) as u32) as nat)
        + " hosts — pass --wide to allow ranges larger than /24\nOr use --host to scan specific IPs"@
}

/// The hosts a CIDR names, or why it is refused. A blank CIDR means
/// `fallback` (the LAN's /24).
pub open spec fn cidr_result(cidr: Seq<char>, wide: bool, fallback: Seq<char>) -> Result<Seq<u32>, Seq<char>> {
    let c = if trim(cidr).len() == 0 {
        fallback
    } else {
        trim(cidr)
    };
    match crate::text::first_index(c, '/') {
        None => Err("CIDR must look like 192.168.1.0/24"@),
        Some(i) => match ipv4_value(c.take(i)) {
            None => Err("invalid IPv4 address syntax"@),
            Some(base) => match u32_parse(c.skip(i + 1)) {
                Err(m) => Err(m),
                Ok(prefix) => if prefix > 32 {
                    Err("CIDR prefix must be 0..=32"@)
                } else if prefix < 16 {
                    Err("scanner refuses networks larger than /16 for safety"@)
                } else if prefix < 24 && !wide {
                    Err(wide_text(prefix))
                } else {
                    Ok(block_hosts(base, prefix))
                },
            },
        },
    }
}

/// The addresses a CIDR range covers (see [`cidr_result`]).
pub fn cidr_hosts(cidr: &str, wide: bool, fallback: &str) -> (r: Result<Vec<u32>, String>)
    ensures
        match r {
            Ok(h) => cidr_result(cidr@, wide, fallback@) == Ok::<Seq<u32>, Seq<char>>(h@),
            Err(m) => cidr_result(cidr@, wide, fallback@) == Err::<Seq<u32>, Seq<char>>(m@),
        },
{
    let t = trim_str(cidr);
    let c = if t.as_str().is_empty() {
        chars_of(fallback)
    } else {
        chars_of(t.as_str())
    };
    let i = match find_char(c.as_slice(), '/') {
        Some(i) => i,
        None => {
            return Err(String::from_str("CIDR must look like 192.168.1.0/24"));
        },
    };
    let base_text = string_of(slice_chars(c.as_slice(), 0, i).as_slice());
    assert(base_text@ =~= c@.take(i as int));
    let base = match parse_ipv4(base_text.as_str()) {
        Some(b) => b,
        None => {
            return Err(String::from_str("invalid IPv4 address syntax"));
        },
    };
    let ptext = slice_chars(c.as_slice(), i + 1, c.len());
    assert(ptext@ =~= c@.skip(i + 1));
    let prefix = match parse_u32_text(ptext.as_slice()) {
        Ok(p) => p,
        Err(m) => {
            return Err(m);
        },
    };
    if prefix > 32 {
        return Err(String::from_str("CIDR prefix must be 0..=32"));
    }
    if prefix < 16 {
        return Err(String::from_str("scanner refuses networks larger than /16 for safety"));
    }
    let k: u32 = 32 - prefix;
    if prefix < 24 && !wide {
        let mut m = String::from_str("network /");
        push_dec(&mut m, prefix as u64);
        push_str(&mut m, " has ");
        push_dec(&mut m, (1u32 << k) as u64);
        push_str(&mut m, " hosts — pass --wide to allow ranges larger than /24\nOr use --host to scan specific IPs");
        return Err(m);
    }
    let network = base & (0xffffffffu32 << k);
    let total: u32 = 1u32 << k;
    proof {
        assert(total >= 1 && total <= 65536 && network as int + total as int - 1 <= 0xffffffff) by (bit_vector)
            requires
                k <= 16,
                total == 1u32 << k,
                network == base & (0xffffffffu32 << k),
        ;
    }
    let mut out: Vec<u32> = Vec::new();
    let (first, last) = if total > 2 {
        (1u32, total - 1)
    } else {
        (0u32, total)
    };
    let mut o = first;
    while o < last
        invariant
            first <= o <= last <= total,
            network as int + total as int - 1 <= 0xffffffff,
            out@ == Seq::new((o - first) as nat, |j: int| (network + j + first) as u32),
        decreases last - o,
    {
        out.push(network + o);
        o += 1;
        assert(out@ =~= Seq::new((o - first) as nat, |j: int| (network + j + first) as u32));
    }
    assert(out@ =~= block_hosts(base, prefix));
    Ok(out)
}

/// `s` cut to `max` bytes with an ellipsis when longer: its first `max - 1`
/// bytes (at a character boundary) and `…`.
pub open spec fn truncated_text(s: Seq<char>, max: nat) -> Seq<char> {
    if utf8_len(s) <= max {
        s
    } else {
        floor_prefix_bytes(s, (max - 1) as nat) + "…"@
    }
}

pub fn truncate(s: &str, max: usize) -> (r: String)
    requires
        1 <= max < usize::MAX - 4,
    ensures
        r@ == truncated_text(s@, max as nat),
{
    let cs = chars_of(s);
    if byte_len_upto(cs.as_slice(), max) <= max {
        return String::from_str(s);
    }
    let mut out = string_of(floor_prefix(cs.as_slice(), max - 1).as_slice());
    push_str(&mut out, "…");
    out
}

/// Trimmed text, or nothing when it is empty.
pub fn none_if_empty(value: String) -> (r: Option<String>)
    ensures
        match r {
            Some(t) => t@ == trim(value@) && t@.len() > 0,
            None => trim(value@).len() == 0,
        },
{
    let t = trim_str(value.as_str());
    if t.as_str().is_empty() {
        None
    } else {
        Some(t)
    }
}

/// The range scanned by default: the /24 around the LAN address, or the
/// loopback host when there is none.
pub open spec fn default_cidr_text(lan: Option<u32>) -> Seq<char> {
    match lan {
        Some(ip) => dec(((ip / 16777216) % 256) as nat) + "."@ + dec(((ip / 65536) % 256) as nat) + "."@ + dec(
            ((ip / 256) % 256) as nat,
        ) + ".0/24"@,
        None => "127.0.0.1/32"@,
    }
}

pub fn default_cidr(lan: Option<u32>) -> (r: String)
    ensures
        r@ == default_cidr_text(lan),
{
    match lan {
        Some(ip) => {
            let mut s = String::new();
            push_dec(&mut s, ((ip / 16777216) % 256) as u64);
            push_str(&mut s, ".");
            push_dec(&mut s, ((ip / 65536) % 256) as u64);
            push_str(&mut s, ".");
            push_dec(&mut s, ((ip / 256) % 256) as u64);
            push_str(&mut s, ".0/24");
            proof {
                reveal_strlit("");
            }
            assert(s@ =~= default_cidr_text(lan));
            s
        },
        None => String::from_str("127.0.0.1/32"),
    }
}

/// The addresses a scan covers: the listed hosts, else the CIDR range
/// (`fallback` when none is set).
pub open spec fn targets_result(opts: ScanOptions, fallback: Seq<char>) -> Result<Seq<u32>, Seq<char>> {
    if opts.hosts@.len() > 0 {
        Ok(opts.hosts@)
    } else {
        cidr_result(
            match opts.cidr {
                Some(c) => c@,
                None => ""@,
            },
            opts.wide,
            fallback,
        )
    }
}

pub fn scan_targets(opts: &ScanOptions, fallback: &str) -> (r: Result<Vec<u32>, String>)
    ensures
        match r {
            Ok(h) => targets_result(*opts, fallback@) == Ok::<Seq<u32>, Seq<char>>(h@),
            Err(m) => targets_result(*opts, fallback@) == Err::<Seq<u32>, Seq<char>>(m@),
        },
{
    if opts.hosts.len() > 0 {
        let mut h: Vec<u32> = Vec::new();
        let mut i: usize = 0;
        while i < opts.hosts.len()
            invariant
                i <= opts.hosts.len(),
                h@ == opts.hosts@.take(i as int),
            decreases opts.hosts.len() - i,
        {
            h.push(opts.hosts[i]);
            i += 1;
            assert(h@ =~= opts.hosts@.take(i as int));
        }
        assert(opts.hosts@.take(i as int) =~= opts.hosts@);
        return Ok(h);
    }
    proof {
        reveal_strlit("");
    }
    match &opts.cidr {
        Some(c) => cidr_hosts(c.as_str(), opts.wide, fallback),
        None => cidr_hosts("", opts.wide, fallback),
    }
}

/// The addresses joined with `, `.
pub open spec fn joined_ips(ips: Seq<u32>) -> Seq<char>
    decreases ips.len(),
{
    if ips.len() == 0 {
        ""@
    } else if ips.len() == 1 {
        ip_text(ips[0], '.')
    } else {
        joined_ips(ips.drop_last()) + ", "@ + ip_text(ips.last(), '.')
    }
}

/// What the scanner service says it scans: the hosts, else the CIDR (or
/// `fallback`).
pub open spec fn target_label_text(opts: ScanOptions, fallback: Seq<char>) -> Seq<char> {
    if opts.hosts@.len() > 0 {
        joined_ips(opts.hosts@)
    } else {
        match opts.cidr {
            Some(c) => c@,
            None => fallback,
        }
    }
}

pub fn target_label(opts: &ScanOptions, fallback: &str) -> (r: String)
    ensures
        r@ == target_label_text(*opts, fallback@),
{
    if opts.hosts.len() > 0 {
        let mut s = ip_string(opts.hosts[0], '.');
        let mut i: usize = 1;
        assert(opts.hosts@.take(1).drop_last() =~= Seq::<u32>::empty());
        while i < opts.hosts.len()
            invariant
                1 <= i <= opts.hosts.len(),
                s@ == joined_ips(opts.hosts@.take(i as int)),
            decreases opts.hosts.len() - i,
        {
            push_str(&mut s, ", ");
            let t = ip_string(opts.hosts[i], '.');
            push_str(&mut s, t.as_str());
            assert(opts.hosts@.take(i + 1).drop_last() =~= opts.hosts@.take(i as int));
            i += 1;
        }
        assert(opts.hosts@.take(i as int) =~= opts.hosts@);
        return s;
    }
    match &opts.cidr {
        Some(c) => c.clone(),
        None => String::from_str(fallback),
    }
}

} // verus!
