//! The shape of structured log lines:
//! `<RFC 3339 time> <LEVEL> [<component>] <message>`. The leading timestamp
//! lets instance logs be merged chronologically; level and component tags
//! make them greppable. Reading the clock and printing stay with the caller.

use vstd::prelude::*;

use crate::text::{chars_of, find_uword, push_str, slice_chars, string_of, next_uword};

verus! {

/// Severity of a log event.
#[derive(Debug, Clone, Copy, PartialEq, Eq)]
pub enum Level {
    Info,
    Warn,
    Error,
}

/// The level's column: five characters wide.
pub open spec fn level_text(l: Level) -> Seq<char> {
    match l {
        Level::Info => "INFO "@,
        Level::Warn => "WARN "@,
        Level::Error => "ERROR"@,
    }
}

impl Level {
    pub fn label(self) -> (r: &'static str)
        ensures
            r@ == level_text(self),
    {
        match self {
            Level::Info => "INFO ",
            Level::Warn => "WARN ",
            Level::Error => "ERROR",
        }
    }
}

/// One event line.
pub open spec fn event_text(time: Seq<char>, level: Level, component: Seq<char>, message: Seq<char>) -> Seq<char> {
    time + " "@ + level_text(level) + " ["@ + component + "] "@ + message
}

pub fn event_line(time: &str, level: Level, component: &str, message: &str) -> (r: String)
    ensures
        r@ == event_text(time@, level, component@, message@),
{
    let mut s = String::from_str(time);
    push_str(&mut s, " ");
    push_str(&mut s, level.label());
    push_str(&mut s, " [");
    push_str(&mut s, component);
    push_str(&mut s, "] ");
    push_str(&mut s, message);
    s
}

/// The instant an RFC 3339 text names, in milliseconds since the Unix
/// epoch, if chrono's `DateTime::parse_from_rfc3339` reads it.
pub uninterp spec fn rfc3339_millis(value: Seq<char>) -> Option<int>;

/// `chrono::DateTime::parse_from_rfc3339` followed by `timestamp_millis`.
/// The contract names the result and claims nothing more of it.
#[verifier::external_body]
fn rfc3339_to_millis(value: &str) -> (r: Option<i64>)
    ensures
        match r {
            Some(m) => rfc3339_millis(value@) == Some(m as int),
            None => rfc3339_millis(value@) is None,
        },
{
    chrono::DateTime::parse_from_rfc3339(value).ok().map(|t| t.timestamp_millis())
}

/// The leading timestamp of a log line: its first whitespace-separated word
/// read as RFC 3339, as an instant in milliseconds.
pub open spec fn line_instant(line: Seq<char>) -> Option<int> {
    match next_uword(line, 0) {
        None => None,
        Some((a, b)) => rfc3339_millis(line.subrange(a, b)),
    }
}

pub fn parse_timestamp(line: &str) -> (r: Option<i64>)
    ensures
        match r {
            Some(m) => line_instant(line@) == Some(m as int),
            None => line_instant(line@) is None,
        },
{
    let cs = chars_of(line);
    match find_uword(cs.as_slice(), 0) {
        None => None,
        Some((a, b)) => {
            let w = string_of(slice_chars(cs.as_slice(), a, b).as_slice());
            rfc3339_to_millis(w.as_str())
        },
    }
}

// ── Addresses ────────────────────────────────────────────────────────────────

/// An address worth showing to users: neither the wildcard `0.0.0.0` nor a
/// loopback address (`127.0.0.0/8`).
pub open spec fn displayable(ip: u32) -> bool {
    ip != 0 && ip / 16777216 != 127
}

pub fn is_displayable_ip(ip: u32) -> (r: bool)
    ensures
        r == displayable(ip),
{
    ip != 0 && ip / 16777216 != 127
}

/// The host shown for this machine: its LAN address, else `127.0.0.1`.
pub open spec fn lan_host_text(lan: Option<u32>) -> Seq<char> {
    match lan {
        Some(ip) => crate::scanner::ip_text(ip, '.'),
        None => "127.0.0.1"@,
    }
}

pub fn lan_host(lan: Option<u32>) -> (r: String)
    ensures
        r@ == lan_host_text(lan),
{
    match lan {
        Some(ip) => crate::scanner::ip_string(ip, '.'),
        None => String::from_str("127.0.0.1"),
    }
}

} // verus!
