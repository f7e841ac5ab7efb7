//! The HRMS side: webhook bodies and batches, the retry policy, reading HRMS
//! replies, the job completion shape, and the plain-HTTP framing of the
//! blocking client. Sockets and sleeps stay with the caller.

use vstd::prelude::*;
use vstd::string::StringSliceAdditionalSpecFns;

use crate::config::BridgeDeviceConfig;
use crate::zk_client::extends;
use crate::domain::{event_views, EventView, FingerTemplatePayload, HrmsEvent};
use crate::json::{json_bool, json_get, json_str, json_u64, Json};
use crate::ports::HrmsError;
use crate::receiver::{json_string, push_json_string};
use crate::text::{
    chars_of, dec, find_char, find_word, floor_prefix, floor_prefix_bytes, has_prefix_str,
    lines_of, next_word, parse_u16_chars, nat_text, push_dec, push_str, slice_chars, starts_with,
    string_of, text_lines, utf8_len, byte_len_upto,
};

verus! {

/// Attempts after the first one for a retryable failure.
pub const MAX_RETRIES: usize = 3;

/// Base backoff per attempt, in seconds.
pub const RETRY_BACKOFF_SECONDS: u64 = 2;

/// Largest jitter added to a retry delay, in milliseconds.
pub const RETRY_JITTER_MS: u64 = 500;

// ── Retry policy ─────────────────────────────────────────────────────────────

/// 429 and every 5xx are retried; nothing else is.
pub open spec fn retryable_status(status: u16) -> bool {
    status == 429 || (500 <= status < 600)
}

pub fn should_retry_status(status: u16) -> (r: bool)
    ensures
        r == retryable_status(status),
{
    status == 429 || (500 <= status && status < 600)
}

/// Whether attempt number `attempt` (1-based) that failed in a retryable
/// way is followed by another attempt.
pub fn retry_after(attempt: usize, retryable: bool) -> (r: bool)
    ensures
        r == (retryable && attempt <= MAX_RETRIES),
{
    retryable && attempt <= MAX_RETRIES
}

/// The wait before the next attempt: two seconds per attempt plus jitter.
pub fn retry_delay_ms(attempt: u64, jitter_ms: u64) -> (r: u64)
    requires
        attempt <= 3,
        jitter_ms < RETRY_JITTER_MS,
    ensures
        r == RETRY_BACKOFF_SECONDS * attempt * 1000 + jitter_ms,
{
    RETRY_BACKOFF_SECONDS * attempt * 1000 + jitter_ms
}

/// Sub-second nanoseconds of the wall clock, the entropy for jitter:
/// `SystemTime::now().duration_since(UNIX_EPOCH)` and `Duration::subsec_nanos`
/// (0 when the clock reads before the epoch). The reading changes from call
/// to call, so the contract claims only what std documents of
/// `subsec_nanos`: it is under one second.
#[verifier::external_body]
fn clock_subsec_nanos() -> (r: u32)
    ensures
        r < 1_000_000_000,
{
    std::time::SystemTime::now().duration_since(std::time::UNIX_EPOCH).map(|d| d.subsec_nanos()).unwrap_or(0)
}

/// Jitter in `0..max_ms` from a nanosecond reading; zero when `max_ms` is 0.
pub fn jitter_from_nanos(nanos: u32, max_ms: u64) -> (r: u64)
    ensures
        max_ms == 0 ==> r == 0,
        max_ms > 0 ==> r == nanos as u64 % max_ms && r < max_ms,
{
    if max_ms == 0 {
        0
    } else {
        nanos as u64 % max_ms
    }
}

/// A pseudo-random jitter in `0..max_ms` (0 when `max_ms` is 0), taken from
/// the clock's nanoseconds.
pub fn jitter(max_ms: u64) -> (r: u64)
    ensures
        max_ms == 0 ==> r == 0,
        max_ms > 0 ==> r < max_ms,
{
    jitter_from_nanos(clock_subsec_nanos(), max_ms)
}

// ── Webhook bodies ───────────────────────────────────────────────────────────

/// One event as the webhook JSON holds it.
pub open spec fn event_json(e: EventView) -> Seq<char> {
    "{\"deviceEmployeeId\":"@ + json_string(e.device_employee_id) + ",\"timestamp\":"@ + json_string(
        e.timestamp,
    ) + ",\"eventType\":"@ + json_string(e.event_type) + ",\"verificationMethod\":"@ + json_string(
        e.verification_method,
    ) + "}"@
}

/// Events as a comma-separated JSON list body.
pub open spec fn events_json(es: Seq<EventView>) -> Seq<char>
    decreases es.len(),
{
    if es.len() == 0 {
        seq![]
    } else if es.len() == 1 {
        event_json(es[0])
    } else {
        events_json(es.drop_last()) + ","@ + event_json(es.last())
    }
}

/// The webhook body for one batch.
pub open spec fn webhook_json(organization_id: u64, device_code: Seq<char>, api_key: Seq<char>, es: Seq<EventView>) -> Seq<char> {
    "{\"organizationId\":"@ + dec(organization_id as nat) + ",\"deviceCode\":"@ + json_string(device_code)
        + ",\"apiKey\":"@ + json_string(api_key) + ",\"events\":["@ + events_json(es) + "]}"@
}

fn push_event_json(out: &mut String, e: &HrmsEvent)
    ensures
        final(out)@ == old(out)@ + event_json(e@),
{
    push_str(out, "{\"deviceEmployeeId\":");
    push_json_string(out, e.device_employee_id.as_str());
    push_str(out, ",\"timestamp\":");
    push_json_string(out, e.timestamp.as_str());
    push_str(out, ",\"eventType\":");
    push_json_string(out, e.event_type.as_str());
    push_str(out, ",\"verificationMethod\":");
    push_json_string(out, e.verification_method.as_str());
    push_str(out, "}");
    assert(final(out)@ =~= old(out)@ + event_json(e@));
}

/// The JSON body posted to the webhook for one batch of events.
pub fn webhook_body(device: &BridgeDeviceConfig, events: &[HrmsEvent]) -> (r: String)
    ensures
        r@ == webhook_json(device.organization_id, device.device_code@, device.api_key@, event_views(events@)),
{
    let mut s = String::from_str("{\"organizationId\":");
    push_dec(&mut s, device.organization_id);
    push_str(&mut s, ",\"deviceCode\":");
    push_json_string(&mut s, device.device_code.as_str());
    push_str(&mut s, ",\"apiKey\":");
    push_json_string(&mut s, device.api_key.as_str());
    push_str(&mut s, ",\"events\":[");
    let ghost head = s@;
    let ghost es = event_views(events@);
    let mut i: usize = 0;
    while i < events.len()
        invariant
            i <= events.len(),
            es == event_views(events@),
            s@ == head + events_json(es.take(i as int)),
        decreases events.len() - i,
    {
        let ghost before = s@;
        if i > 0 {
            push_str(&mut s, ",");
        }
        push_event_json(&mut s, &events[i]);
        proof {
            assert(es.take(i + 1).drop_last() =~= es.take(i as int));
            assert(es.take(i + 1).last() == events@[i as int]@);
            if i == 0 {
                assert(es.take(1) =~= seq![es[0]]);
                assert(events_json(es.take(0)) =~= Seq::<char>::empty());
            }
            assert(s@ =~= head + events_json(es.take(i + 1)));
        }
        i += 1;
    }
    push_str(&mut s, "]}");
    assert(es.take(events.len() as int) =~= es);
    assert(s@ =~= webhook_json(device.organization_id, device.device_code@, device.api_key@, es));
    s
}

/// The `[start, end)` ranges of the batches from `start` on, `BATCH_SIZE`
/// (500) events each, the last one shorter: `slice::chunks`.
pub open spec fn batch_ranges(start: int, n: int) -> Seq<(int, int)>
    decreases n - start,
{
    if start >= n {
        seq![]
    } else if start + 500 < n {
        seq![(start, start + 500)] + batch_ranges(start + 500, n)
    } else {
        seq![(start, n)]
    }
}

/// The batch ranges of `n` events.
pub fn batches(n: usize) -> (r: Vec<(usize, usize)>)
    ensures
        r@.map_values(|p: (usize, usize)| (p.0 as int, p.1 as int)) == batch_ranges(0, n as int),
{
    let mut out: Vec<(usize, usize)> = Vec::new();
    let mut start: usize = 0;
    assert(out@.map_values(|p: (usize, usize)| (p.0 as int, p.1 as int)) + batch_ranges(0, n as int) =~= batch_ranges(0, n as int));
    while start < n
        invariant
            out@.map_values(|p: (usize, usize)| (p.0 as int, p.1 as int)) + batch_ranges(start as int, n as int)
                == batch_ranges(0, n as int),
        decreases n - start,
    {
        let end = if n - start > 500 {
            start + 500
        } else {
            n
        };
        let ghost before = out@.map_values(|p: (usize, usize)| (p.0 as int, p.1 as int));
        out.push((start, end));
        assert(out@.map_values(|p: (usize, usize)| (p.0 as int, p.1 as int)) =~= before.push((start as int, end as int)));
        if end < n {
            assert(before.push((start as int, end as int)) + batch_ranges(end as int, n as int) =~= before + batch_ranges(start as int, n as int));
        } else {
            assert(batch_ranges(end as int, n as int) =~= Seq::<(int, int)>::empty());
            assert(before.push((start as int, end as int)) + batch_ranges(end as int, n as int) =~= before + batch_ranges(start as int, n as int));
        }
        start = end;
    }
    assert(batch_ranges(start as int, n as int) =~= Seq::<(int, int)>::empty());
    assert(out@.map_values(|p: (usize, usize)| (p.0 as int, p.1 as int)) + Seq::<(int, int)>::empty() =~= out@.map_values(|p: (usize, usize)| (p.0 as int, p.1 as int)));
    out
}

// ── Reading HRMS replies ─────────────────────────────────────────────────────

/// How many events HRMS says it accepted: `data.received`, else
/// `received`, else the batch size.
pub open spec fn received_in(v: Json, fallback: nat) -> nat {
    let nested = match json_get(v, "data"@) {
        Some(d) => json_u64(json_get(d, "received"@)),
        None => None,
    };
    match nested {
        Some(r) => (r as usize) as nat,
        None => match json_u64(json_get(v, "received"@)) {
            Some(r) => (r as usize) as nat,
            None => fallback,
        },
    }
}

pub fn parse_received(value: &Json, fallback: usize) -> (r: Result<usize, HrmsError>)
    ensures
        r matches Ok(n) && n == received_in(*value, fallback as nat),
{
    let nested = match value.get("data") {
        Some(d) => match d.get("received") {
            Some(x) => x.as_u64(),
            None => None,
        },
        None => None,
    };
    match nested {
        Some(n) => Ok(n as usize),
        None => match value.get("received") {
            Some(x) => match x.as_u64() {
                Some(n) => Ok(n as usize),
                None => Ok(fallback),
            },
            None => Ok(fallback),
        },
    }
}

/// The organization's timezone name HRMS reports, `data.orgTimezone` or
/// `orgTimezone`, when it is a string.
pub open spec fn org_timezone_in(v: Json) -> Option<Seq<char>> {
    let nested = match json_get(v, "data"@) {
        Some(d) => json_str(json_get(d, "orgTimezone"@)),
        None => None,
    };
    match nested {
        Some(t) => Some(t),
        None => json_str(json_get(v, "orgTimezone"@)),
    }
}

pub fn parse_org_timezone(value: &Json) -> (r: Option<String>)
    ensures
        match r {
            Some(t) => org_timezone_in(*value) == Some(t@),
            None => org_timezone_in(*value) is None,
        },
{
    let nested = match value.get("data") {
        Some(d) => match d.get("orgTimezone") {
            Some(x) => x.as_str(),
            None => None,
        },
        None => None,
    };
    match nested {
        Some(t) => Some(String::from_str(t)),
        None => match value.get("orgTimezone") {
            Some(x) => match x.as_str() {
                Some(t) => Some(String::from_str(t)),
                None => None,
            },
            None => None,
        },
    }
}

/// The first 300 characters of a reply body, as error messages quote it.
pub open spec fn quoted_body(body: Seq<char>) -> Seq<char> {
    if body.len() > 300 {
        body.take(300)
    } else {
        body
    }
}

/// What a reply status means for a webhook post.
pub enum PostOutcome {
    /// 2xx: the reply body.
    Success(String),
    /// Worth another attempt: the message.
    Retryable(String),
    /// Not worth retrying: the message.
    Fatal(String),
}

/// `<label> HTTP <status>: <first 300 characters of the body>`.
pub open spec fn http_failure_text(label: Seq<char>, status: u16, body: Seq<char>) -> Seq<char> {
    label + " HTTP "@ + dec(status as nat) + ": "@ + quoted_body(body)
}

/// Classify a reply: 2xx succeeds; 429/5xx may be retried; anything else
/// fails for good. `label` names the request in messages.
pub fn classify_reply(label: &str, status: u16, body: &str) -> (r: PostOutcome)
    ensures
        200 <= status < 300 ==> (r matches PostOutcome::Success(b) && b@ == body@),
        !(200 <= status < 300) && retryable_status(status) ==> (r matches PostOutcome::Retryable(m)
            && m@ == http_failure_text(label@, status, body@)),
        !(200 <= status < 300) && !retryable_status(status) ==> (r matches PostOutcome::Fatal(m) && m@
            == http_failure_text(label@, status, body@)),
{
    if 200 <= status && status < 300 {
        return PostOutcome::Success(String::from_str(body));
    }
    let bc = chars_of(body);
    let cut = if bc.len() > 300 {
        slice_chars(bc.as_slice(), 0, 300)
    } else {
        slice_chars(bc.as_slice(), 0, bc.len())
    };
    let mut m = String::from_str(label);
    push_str(&mut m, " HTTP ");
    push_dec(&mut m, status as u64);
    push_str(&mut m, ": ");
    crate::text::push_chars(&mut m, cut.as_slice());
    assert(m@ =~= http_failure_text(label@, status, body@));
    if should_retry_status(status) {
        PostOutcome::Retryable(m)
    } else {
        PostOutcome::Fatal(m)
    }
}

// ── Job completion ───────────────────────────────────────────────────────────

/// Result body sent back to HRMS when a job is completed.
#[derive(Debug, Clone)]
pub struct JobCompletion {
    pub ok: bool,
    pub error: Option<String>,
    pub templates: Option<Vec<FingerTemplatePayload>>,
}

/// An error message cut to at most 300 bytes, at a character boundary.
pub open spec fn truncated_error(m: Seq<char>) -> Seq<char> {
    if utf8_len(m) > 300 {
        floor_prefix_bytes(m, 300)
    } else {
        m
    }
}

/// Cut an error message to at most 300 bytes.
pub fn truncate_error(message: String) -> (r: String)
    ensures
        r@ == truncated_error(message@),
{
    let cs = chars_of(message.as_str());
    if byte_len_upto(cs.as_slice(), 300) > 300 {
        string_of(floor_prefix(cs.as_slice(), 300).as_slice())
    } else {
        message
    }
}

impl JobCompletion {
    pub fn ok() -> (r: Self)
        ensures
            r.ok,
            r.error is None,
            r.templates is None,
    {
        JobCompletion { ok: true, error: None, templates: None }
    }

    pub fn error(message: String) -> (r: Self)
        ensures
            !r.ok,
            r.error matches Some(m) && m@ == truncated_error(message@),
            r.templates is None,
    {
        JobCompletion { ok: false, error: Some(truncate_error(message)), templates: None }
    }

    pub fn templates(templates: Vec<FingerTemplatePayload>) -> (r: Self)
        ensures
            r.ok,
            r.error is None,
            r.templates == Some(templates),
    {
        JobCompletion { ok: true, error: None, templates: Some(templates) }
    }
}

// ── Plain HTTP framing ───────────────────────────────────────────────────────

/// Where a plain `http://` URL points.
#[derive(Debug, Clone)]
pub struct ParsedHttpUrl {
    pub host: String,
    pub port: u16,
    pub path: String,
}

/// The last index of `c` in `s`, if any.
pub open spec fn last_index(s: Seq<char>, c: char) -> Option<int> {
    if exists|i: int| 0 <= i < s.len() && s[i] == c {
        Some(choose|i: int| 0 <= i < s.len() && s[i] == c && forall|j: int| i < j < s.len() ==> s[j] != c)
    } else {
        None
    }
}

fn rfind_char(s: &[char], c: char) -> (r: Option<usize>)
    ensures
        match r {
            Some(i) => last_index(s@, c) == Some(i as int) && i < s.len(),
            None => last_index(s@, c) is None,
        },
{
    let mut i = s.len();
    while i > 0
        invariant
            i <= s.len(),
            forall|j: int| i <= j < s.len() ==> s@[j] != c,
        decreases i,
    {
        if s[i - 1] == c {
            proof {
                let k = i - 1;
                let w = choose|w: int| 0 <= w < s@.len() && s@[w] == c && forall|j: int| w < j < s@.len() ==> s@[j] != c;
                assert(0 <= k < s@.len() && s@[k] == c && forall|j: int| k < j < s@.len() ==> s@[j] != c);
                if w < k {
                    assert(s@[k] != c);
                } else if w > k {
                }
            }
            return Some(i - 1);
        }
        i -= 1;
    }
    None
}

/// What `ParsedHttpUrl::parse` reads from a URL: host, port and path, or the
/// error message.
pub open spec fn http_url_parts(url: Seq<char>) -> Result<(Seq<char>, u16, Seq<char>), Seq<char>> {
    if !starts_with(url, "http://"@) {
        Err("mock HRMS client supports http:// URLs"@)
    } else {
        let rest = url.skip(7);
        match host_port(url_authority(rest)) {
            Err(m) => Err(m),
            Ok((host, port)) => if host.len() == 0 {
                Err("HRMS URL missing host"@)
            } else {
                Ok((host, port, seq!['/'] + url_path(rest)))
            },
        }
    }
}

/// The authority of a URL's rest (before the first `/`).
pub open spec fn url_authority(rest: Seq<char>) -> Seq<char> {
    match crate::text::first_index(rest, '/') {
        Some(i) => rest.take(i),
        None => rest,
    }
}

/// The path of a URL's rest (after the first `/`), without that slash.
pub open spec fn url_path(rest: Seq<char>) -> Seq<char> {
    match crate::text::first_index(rest, '/') {
        Some(i) => rest.skip(i + 1),
        None => seq![],
    }
}

/// Host and port of an authority: after the last `:` a port, else 80.
pub open spec fn host_port(authority: Seq<char>) -> Result<(Seq<char>, u16), Seq<char>> {
    match last_index(authority, ':') {
        Some(i) => match nat_text(authority.skip(i + 1)) {
            Some(p) => if p <= 65535 {
                Ok((authority.take(i), p as u16))
            } else {
                Err("invalid HRMS URL port"@)
            },
            None => Err("invalid HRMS URL port"@),
        },
        None => Ok((authority, 80u16)),
    }
}

fn split_rest(rest: &[char]) -> (r: (Vec<char>, Vec<char>))
    ensures
        r.0@ == url_authority(rest@),
        r.1@ == url_path(rest@),
{
    match find_char(rest, '/') {
        Some(i) => (slice_chars(rest, 0, i), slice_chars(rest, i + 1, rest.len())),
        None => {
            let empty: Vec<char> = Vec::new();
            (slice_chars(rest, 0, rest.len()), empty)
        },
    }
}

fn split_host_port(authority: &[char]) -> (r: Result<(Vec<char>, u16), String>)
    ensures
        match r {
            Ok((h, p)) => host_port(authority@) == Ok::<(Seq<char>, u16), Seq<char>>((h@, p)),
            Err(m) => host_port(authority@) == Err::<(Seq<char>, u16), Seq<char>>(m@),
        },
{
    match rfind_char(authority, ':') {
        Some(i) => {
            let ptext = slice_chars(authority, i + 1, authority.len());
            assert(ptext@ =~= authority@.skip(i + 1));
            match parse_u16_chars(ptext.as_slice()) {
                Some(p) => {
                    let h = slice_chars(authority, 0, i);
                    assert(h@ =~= authority@.take(i as int));
                    Ok((h, p))
                },
                None => Err(String::from_str("invalid HRMS URL port")),
            }
        },
        None => {
            let h = slice_chars(authority, 0, authority.len());
            assert(h@ =~= authority@);
            Ok((h, 80u16))
        },
    }
}

impl ParsedHttpUrl {
    pub fn parse(url: &str) -> (r: Result<Self, HrmsError>)
        ensures
            match r {
                Ok(p) => http_url_parts(url@) == Ok::<(Seq<char>, u16, Seq<char>), Seq<char>>((p.host@, p.port, p.path@)),
                Err(HrmsError::Message(m)) => http_url_parts(url@) == Err::<(Seq<char>, u16, Seq<char>), Seq<char>>(m@),
                Err(HrmsError::NotImplemented) => false,
            },
    {
        let u = chars_of(url);
        if !has_prefix_str(u.as_slice(), "http://") {
            return Err(HrmsError::Message(String::from_str("mock HRMS client supports http:// URLs")));
        }
        proof {
            reveal_strlit("http://");
        }
        let rest = slice_chars(u.as_slice(), 7, u.len());
        assert(rest@ =~= url@.skip(7));
        let (authority, path) = split_rest(rest.as_slice());
        let (host, port) = match split_host_port(authority.as_slice()) {
            Ok(hp) => hp,
            Err(m) => {
                return Err(HrmsError::Message(m));
            },
        };
        if host.len() == 0 {
            return Err(HrmsError::Message(String::from_str("HRMS URL missing host")));
        }
        let mut p = String::from_str("/");
        crate::text::push_chars(&mut p, path.as_slice());
        proof {
            reveal_strlit("/");
            assert("/"@ =~= seq!['/']);
        }
        assert(p@ =~= seq!['/'] + url_path(rest@));
        Ok(ParsedHttpUrl { host: string_of(host.as_slice()), port, path: p })
    }

    /// The `Host` header: the host, with `:port` unless the port is 80.
    pub fn host_header(&self) -> (r: String)
        ensures
            r@ == if self.port == 80 {
                self.host@
            } else {
                self.host@ + ":"@ + dec(self.port as nat)
            },
    {
        if self.port == 80 {
            self.host.clone()
        } else {
            let mut s = self.host.clone();
            push_str(&mut s, ":");
            push_dec(&mut s, self.port as u64);
            s
        }
    }
}


/// The request the blocking client sends for a webhook post.
pub open spec fn post_request(path: Seq<char>, host_header: Seq<char>, body: Seq<char>) -> Seq<char> {
    "POST "@ + path + " HTTP/1.1\r\nHost: "@ + host_header
        + "\r\nContent-Type: application/json\r\nAccept: application/json\r\nUser-Agent: ZKTecoBridgeRust/0.1.0\r\nContent-Length: "@
        + dec(vstd::utf8::encode_utf8(body).len()) + "\r\nConnection: close\r\n\r\n"@ + body
}

pub fn post_request_text(url: &ParsedHttpUrl, body: &str) -> (r: String)
    ensures
        r@ == post_request(
            url.path@,
            if url.port == 80 {
                url.host@
            } else {
                url.host@ + ":"@ + dec(url.port as nat)
            },
            body@,
        ),
{
    let mut s = String::from_str("POST ");
    push_str(&mut s, url.path.as_str());
    push_str(&mut s, " HTTP/1.1\r\nHost: ");
    let host = url.host_header();
    push_str(&mut s, host.as_str());
    push_str(
        &mut s,
        "\r\nContent-Type: application/json\r\nAccept: application/json\r\nUser-Agent: ZKTecoBridgeRust/0.1.0\r\nContent-Length: ",
    );
    push_dec(&mut s, body.as_bytes().len() as u64);
    push_str(&mut s, "\r\nConnection: close\r\n\r\n");
    push_str(&mut s, body);
    assert(body.spec_bytes() == vstd::utf8::encode_utf8(body@));
    s
}

/// The first index where `p` occurs in `s`, if any.
pub open spec fn find_text(s: Seq<char>, p: Seq<char>) -> Option<int> {
    if exists|i: int| 0 <= i <= s.len() - p.len() && #[trigger] s.subrange(i, i + p.len()) == p {
        Some(choose|i: int| 0 <= i <= s.len() - p.len() && #[trigger] s.subrange(i, i + p.len()) == p && forall|j: int| 0 <= j < i ==> #[trigger] s.subrange(j, j + p.len()) != p)
    } else {
        None
    }
}

fn find_blank_line(s: &[char]) -> (r: Option<usize>)
    ensures
        match r {
            Some(i) => find_text(s@, "\r\n\r\n"@) == Some(i as int) && i + 4 <= s.len(),
            None => find_text(s@, "\r\n\r\n"@) is None,
        },
{
    proof {
        reveal_strlit("\r\n\r\n");
    }
    let ghost p = "\r\n\r\n"@;
    assert(p =~= seq!['\r', '\n', '\r', '\n']);
    if s.len() < 4 {
        return None;
    }
    let mut i: usize = 0;
    while i <= s.len() - 4
        invariant
            p == "\r\n\r\n"@,
            p == seq!['\r', '\n', '\r', '\n'],
            s.len() >= 4,
            i <= s.len() - 3,
            forall|j: int| 0 <= j < i ==> #[trigger] s@.subrange(j, j + 4) != p,
        decreases s.len() - i,
    {
        if s[i] == '\r' && s[i + 1] == '\n' && s[i + 2] == '\r' && s[i + 3] == '\n' {
            proof {
                assert(s@.subrange(i as int, i + 4) =~= p);
                let w = choose|w: int| 0 <= w <= s@.len() - p.len() && #[trigger] s@.subrange(w, w + p.len()) == p && forall|j: int| 0 <= j < w ==> #[trigger] s@.subrange(j, j + p.len()) != p;
                if w < i {
                } else if w > i {
                    assert(s@.subrange(i as int, i + p.len()) == p);
                }
            }
            return Some(i);
        }
        proof {
            if s@.subrange(i as int, i + 4) == p {
                assert(s@.subrange(i as int, i + 4)[0] == s@[i as int]);
                assert(s@.subrange(i as int, i + 4)[1] == s@[i + 1]);
                assert(s@.subrange(i as int, i + 4)[2] == s@[i + 2]);
                assert(s@.subrange(i as int, i + 4)[3] == s@[i + 3]);
            }
        }
        i += 1;
    }
    None
}

/// The status and body of a raw HTTP reply, or the message of a reply that
/// cannot be read.
pub open spec fn http_reply(response: Seq<char>) -> Result<(u16, Seq<char>), Seq<char>> {
    match find_text(response, "\r\n\r\n"@) {
        None => Err("HRMS returned invalid HTTP response"@),
        Some(i) => {
            let head = response.take(i);
            let body = response.skip(i + 4);
            let ls = text_lines(head);
            let status: Option<u16> = if ls.len() == 0 {
                None
            } else {
                match crate::text::next_uword(ls[0], 0) {
                    None => None,
                    Some((a, b)) => match crate::text::next_uword(ls[0], b) {
                        None => None,
                        Some((c, d)) => match nat_text(ls[0].subrange(c, d)) {
                            Some(v) => if v <= 65535 {
                                Some(v as u16)
                            } else {
                                None
                            },
                            None => None,
                        },
                    },
                }
            };
            match status {
                Some(st) => Ok((st, body)),
                None => Err("HRMS response missing status code"@),
            }
        },
    }
}

/// Read the status code and body of a raw HTTP reply.
pub fn parse_http_reply(response: &str) -> (r: Result<(u16, String), String>)
    ensures
        match r {
            Ok((st, b)) => http_reply(response@) == Ok::<(u16, Seq<char>), Seq<char>>((st, b@)),
            Err(m) => http_reply(response@) == Err::<(u16, Seq<char>), Seq<char>>(m@),
        },
{
    let rc = chars_of(response);
    let i = match find_blank_line(rc.as_slice()) {
        Some(i) => i,
        None => {
            return Err(String::from_str("HRMS returned invalid HTTP response"));
        },
    };
    let head = slice_chars(rc.as_slice(), 0, i);
    let body = slice_chars(rc.as_slice(), i + 4, rc.len());
    assert(head@ =~= response@.take(i as int));
    assert(body@ =~= response@.skip(i + 4));
    let lines = lines_of(head.as_slice());
    let ghost lv = lines@.map_values(|l: Vec<char>| l@);
    let missing = String::from_str("HRMS response missing status code");
    if lines.len() == 0 {
        return Err(missing);
    }
    let l = lines[0].as_slice();
    assert(lv[0] == l@);
    let (_a, b) = match crate::text::find_uword(l, 0) {
        Some(w) => w,
        None => {
            return Err(missing);
        },
    };
    let (c, d) = match crate::text::find_uword(l, b) {
        Some(w) => w,
        None => {
            return Err(missing);
        },
    };
    let code = slice_chars(l, c, d);
    match parse_u16_chars(code.as_slice()) {
        Some(st) => Ok((st, string_of(body.as_slice()))),
        None => Err(missing),
    }
}

/// A base URL without trailing slashes (`trim_end_matches('/')`).
pub open spec fn without_trailing_slashes(s: Seq<char>) -> Seq<char>
    decreases s.len(),
{
    if s.len() > 0 && s.last() == '/' {
        without_trailing_slashes(s.drop_last())
    } else {
        s
    }
}

pub fn trim_trailing_slashes(s: &str) -> (r: String)
    ensures
        r@ == without_trailing_slashes(s@),
{
    let cs = chars_of(s);
    let mut n = cs.len();
    assert(cs@.take(n as int) =~= cs@);
    while n > 0 && cs[n - 1] == '/'
        invariant
            n <= cs.len(),
            without_trailing_slashes(s@) == without_trailing_slashes(cs@.take(n as int)),
            cs@ == s@,
        decreases n,
    {
        assert(cs@.take(n as int).drop_last() =~= cs@.take(n - 1));
        n -= 1;
    }
    string_of(slice_chars(cs.as_slice(), 0, n).as_slice())
}

/// Device codes joined with commas.
pub open spec fn comma_joined(codes: Seq<Seq<char>>) -> Seq<char>
    decreases codes.len(),
{
    if codes.len() == 0 {
        seq![]
    } else if codes.len() == 1 {
        codes[0]
    } else {
        comma_joined(codes.drop_last()) + ","@ + codes.last()
    }
}

/// The URL pending jobs are fetched from.
pub open spec fn pending_jobs_url(base: Seq<char>, codes: Seq<Seq<char>>) -> Seq<char> {
    without_trailing_slashes(base) + "/biometric-devices/pending-jobs?deviceCodes="@ + comma_joined(codes)
}

pub fn pending_jobs_url_text(base_url: &str, device_codes: &[String]) -> (r: String)
    ensures
        r@ == pending_jobs_url(base_url@, device_codes@.map_values(|c: String| c@)),
{
    let mut s = trim_trailing_slashes(base_url);
    push_str(&mut s, "/biometric-devices/pending-jobs?deviceCodes=");
    let ghost head = s@;
    let ghost cv = device_codes@.map_values(|c: String| c@);
    let mut i: usize = 0;
    while i < device_codes.len()
        invariant
            i <= device_codes.len(),
            cv == device_codes@.map_values(|c: String| c@),
            s@ == head + comma_joined(cv.take(i as int)),
        decreases device_codes.len() - i,
    {
        if i > 0 {
            push_str(&mut s, ",");
        }
        push_str(&mut s, device_codes[i].as_str());
        proof {
            assert(cv.take(i + 1).drop_last() =~= cv.take(i as int));
            assert(cv[i as int] == device_codes@[i as int]@);
            if i == 0 {
                assert(cv.take(1) =~= seq![cv[0]]);
                assert(comma_joined(cv.take(0)) =~= Seq::<char>::empty());
            }
            assert(s@ =~= head + comma_joined(cv.take(i + 1)));
        }
        i += 1;
    }
    assert(cv.take(device_codes.len() as int) =~= cv);
    s
}

/// The URL a job completion is posted to.
pub open spec fn complete_job_url(base: Seq<char>, job_id: Seq<char>) -> Seq<char> {
    without_trailing_slashes(base) + "/biometric-devices/jobs/"@ + job_id + "/complete"@
}

pub fn complete_job_url_text(base_url: &str, job_id: &str) -> (r: String)
    ensures
        r@ == complete_job_url(base_url@, job_id@),
{
    let mut s = trim_trailing_slashes(base_url);
    push_str(&mut s, "/biometric-devices/jobs/");
    push_str(&mut s, job_id);
    push_str(&mut s, "/complete");
    s
}


// ── Delivering batches ───────────────────────────────────────────────────────

/// Why one delivery attempt failed.
pub enum PostFailure {
    /// Worth another attempt.
    Retryable(String),
    /// Not worth retrying.
    Fatal(String),
}

/// The HTTP side of webhook delivery.
pub trait WebhookPoster {
    /// One attempt: the parsed reply, or why it failed.
    fn post_once(&self, url: &str, body: &str) -> Result<Json, PostFailure>;

    /// Waits `delay_ms` before attempt `attempt + 1`, reporting `message`.
    fn wait_before_retry(&self, attempt: usize, message: &str, delay_ms: u64);
}

/// One delivery attempt: the URL and body posted and what came back.
pub type AttemptRecord = (Seq<char>, Seq<char>, Result<Json, PostFailure>);

/// One delivery: the body and the result its retries ended with.
pub type DeliveryRecord = (Seq<char>, Result<Json, HrmsError>);

/// What webhook delivery has done so far: every attempt, every wait before
/// a retry (the attempt it follows and the delay), and every delivery.
pub struct DeliveryTrace {
    attempts: Ghost<Seq<AttemptRecord>>,
    waits: Ghost<Seq<(usize, u64)>>,
    deliveries: Ghost<Seq<DeliveryRecord>>,
}

impl DeliveryTrace {
    pub closed spec fn attempts(&self) -> Seq<AttemptRecord> {
        self.attempts@
    }

    pub closed spec fn waits(&self) -> Seq<(usize, u64)> {
        self.waits@
    }

    pub closed spec fn deliveries(&self) -> Seq<DeliveryRecord> {
        self.deliveries@
    }

    /// A trace with nothing in it yet.
    pub fn new() -> (t: Self)
        ensures
            t.attempts().len() == 0,
            t.waits().len() == 0,
            t.deliveries().len() == 0,
    {
        DeliveryTrace { attempts: Ghost(Seq::empty()), waits: Ghost(Seq::empty()), deliveries: Ghost(Seq::empty()) }
    }
}

/// The attempts and waits of one retried delivery of `body` to `url`: one
/// to four attempts, each posting that body to that URL; every attempt but
/// the last failed in a retryable way, and a retryable last one is the
/// fourth; before attempt `k + 1` the wait is `2000 * k` ms plus jitter
/// under `jitter_max_ms` (none when it is 0).
pub open spec fn retry_run(
    attempts: Seq<AttemptRecord>,
    waits: Seq<(usize, u64)>,
    url: Seq<char>,
    body: Seq<char>,
    jitter_max_ms: u64,
) -> bool {
    &&& 1 <= attempts.len() <= MAX_RETRIES + 1
    &&& forall|i: int| 0 <= i < attempts.len() ==> (#[trigger] attempts[i]).0 == url && attempts[i].1 == body
    &&& forall|i: int|
        0 <= i < attempts.len() - 1 ==> ((#[trigger] attempts[i]).2 matches Err(PostFailure::Retryable(_)))
    &&& (attempts.last().2 matches Err(PostFailure::Retryable(_)) ==> attempts.len() == MAX_RETRIES + 1)
    &&& waits.len() == attempts.len() - 1
    &&& forall|k: int|
        0 <= k < waits.len() ==> {
            let base = RETRY_BACKOFF_SECONDS * (k + 1) * 1000;
            &&& (#[trigger] waits[k]).0 == k + 1
            &&& base <= waits[k].1
            &&& (waits[k].1 - base < jitter_max_ms || waits[k].1 == base)
        }
}

/// The result a delivery ends with, given its last attempt: the reply, or
/// the last failure's message.
pub open spec fn retry_result(last: Result<Json, PostFailure>) -> Result<Json, HrmsError> {
    match last {
        Ok(v) => Ok(v),
        Err(PostFailure::Fatal(m)) => Err(HrmsError::Message(m)),
        Err(PostFailure::Retryable(m)) => Err(HrmsError::Message(m)),
    }
}

/// Posts one body, retrying a retryable failure up to three times with a
/// growing delay (two seconds per attempt, plus up to `jitter_max_ms` of
/// jitter). The trace gains the attempts, the waits and the delivery.
pub fn post_with_retry(
    poster: &dyn WebhookPoster,
    trace: &mut DeliveryTrace,
    url: &str,
    body: &str,
    jitter_max_ms: u64,
) -> (r: Result<Json, HrmsError>)
    requires
        jitter_max_ms <= RETRY_JITTER_MS,
    ensures
        extends(old(trace).attempts(), final(trace).attempts()),
        extends(old(trace).waits(), final(trace).waits()),
        retry_run(
            final(trace).attempts().skip(old(trace).attempts().len() as int),
            final(trace).waits().skip(old(trace).waits().len() as int),
            url@,
            body@,
            jitter_max_ms,
        ),
        r == retry_result(final(trace).attempts().last().2),
        final(trace).deliveries() == old(trace).deliveries().push((body@, r)),
{
    let ghost a0 = trace.attempts@.len() as int;
    let ghost w0 = trace.waits@.len() as int;
    let mut attempt: usize = 0;
    while attempt <= MAX_RETRIES
        invariant
            attempt <= MAX_RETRIES,
            jitter_max_ms <= RETRY_JITTER_MS,
            a0 == old(trace).attempts@.len(),
            w0 == old(trace).waits@.len(),
            trace.deliveries@ == old(trace).deliveries@,
            extends(old(trace).attempts@, trace.attempts@),
            extends(old(trace).waits@, trace.waits@),
            trace.attempts@.len() == a0 + attempt,
            trace.waits@.len() == w0 + attempt,
            forall|i: int|
                a0 <= i < trace.attempts@.len() ==> (#[trigger] trace.attempts@[i]).0 == url@
                    && trace.attempts@[i].1 == body@ && (trace.attempts@[i].2 matches Err(PostFailure::Retryable(_))),
            forall|k: int|
                w0 <= k < trace.waits@.len() ==> {
                    let base = RETRY_BACKOFF_SECONDS * (k - w0 + 1) * 1000;
                    &&& (#[trigger] trace.waits@[k]).0 == k - w0 + 1
                    &&& base <= trace.waits@[k].1
                    &&& (trace.waits@[k].1 - base < jitter_max_ms || trace.waits@[k].1 == base)
                },
        decreases MAX_RETRIES + 1 - attempt,
    {
        attempt += 1;
        let outcome = poster.post_once(url, body);
        proof {
            trace.attempts@ = trace.attempts@.push((url@, body@, outcome));
        }
        let ghost na = trace.attempts@.skip(a0);
        let ghost nw = trace.waits@.skip(w0);
        match outcome {
            Ok(v) => {
                let r = Ok(v);
                proof {
                    trace.deliveries@ = trace.deliveries@.push((body@, r));
                    assert(nw.len() == na.len() - 1);
                }
                return r;
            },
            Err(PostFailure::Fatal(m)) => {
                let r = Err(HrmsError::Message(m));
                proof {
                    trace.deliveries@ = trace.deliveries@.push((body@, r));
                }
                return r;
            },
            Err(PostFailure::Retryable(m)) => {
                if !retry_after(attempt, true) {
                    let r = Err(HrmsError::Message(m));
                    proof {
                        trace.deliveries@ = trace.deliveries@.push((body@, r));
                    }
                    return r;
                }
                let j = jitter(jitter_max_ms);
                let delay = retry_delay_ms(attempt as u64, j);
                proof {
                    trace.waits@ = trace.waits@.push((attempt, delay));
                }
                poster.wait_before_retry(attempt, m.as_str(), delay);
            },
        }
    }
    Err(HrmsError::Message(String::from_str("webhook delivery gave up")))
}

/// What HRMS said the deliveries received, batch by batch: `received_in`
/// of each reply, with the batch's size as the fallback.
pub open spec fn total_received(d: Seq<DeliveryRecord>, ranges: Seq<(int, int)>) -> int
    decreases d.len(),
{
    if d.len() == 0 {
        0
    } else {
        let k = d.len() - 1;
        total_received(d.drop_last(), ranges) + match d.last().1 {
            Ok(v) => received_in(v, (ranges[k].1 - ranges[k].0) as nat) as int,
            Err(_) => 0,
        }
    }
}

/// The body of batch `k` of the events.
pub open spec fn batch_body(device: BridgeDeviceConfig, events: Seq<HrmsEvent>, range: (int, int)) -> Seq<char> {
    webhook_json(
        device.organization_id,
        device.device_code@,
        device.api_key@,
        event_views(events.subrange(range.0, range.1)),
    )
}

/// Forwards events in batches of 500, adding up what HRMS says it received
/// (the batch size when it does not say). No events means no request. The
/// batches are delivered in order, each as its webhook body, until one
/// fails; that failure is the result.
pub fn forward_with(
    poster: &dyn WebhookPoster,
    trace: &mut DeliveryTrace,
    webhook_url: &str,
    device: &BridgeDeviceConfig,
    events: &[HrmsEvent],
    jitter_max_ms: u64,
) -> (r: Result<crate::ports::WebhookResult, HrmsError>)
    requires
        jitter_max_ms <= RETRY_JITTER_MS,
    ensures
        extends(old(trace).deliveries(), final(trace).deliveries()),
        events@.len() == 0 ==> r == Ok::<crate::ports::WebhookResult, HrmsError>(
            crate::ports::WebhookResult { received: 0 },
        ) && final(trace).deliveries() == old(trace).deliveries(),
        ({
            let d = final(trace).deliveries().skip(old(trace).deliveries().len() as int);
            let ranges = batch_ranges(0, events@.len() as int);
            &&& d.len() <= ranges.len()
            &&& forall|i: int| 0 <= i < d.len() ==> (#[trigger] d[i]).0 == batch_body(*device, events@, ranges[i])
            &&& forall|i: int| 0 <= i < d.len() - 1 ==> (#[trigger] d[i]).1 is Ok
            &&& r matches Ok(w) ==> d.len() == ranges.len() && (forall|i: int|
                0 <= i < d.len() ==> (#[trigger] d[i]).1 is Ok) && w.received as int == if total_received(
                d,
                ranges,
            ) > usize::MAX {
                usize::MAX as int
            } else {
                total_received(d, ranges)
            }
            &&& r matches Err(e) ==> d.len() > 0 && d.last().1 == Err::<Json, HrmsError>(e)
        }),
{
    let ghost d0 = trace.deliveries@.len() as int;
    if events.len() == 0 {
        assert(trace.deliveries@.skip(d0) =~= Seq::<DeliveryRecord>::empty());
        return Ok(crate::ports::WebhookResult { received: 0 });
    }
    let ranges = batches(events.len());
    let ghost rv = ranges@.map_values(|p: (usize, usize)| (p.0 as int, p.1 as int));
    proof {
        lemma_batch_ranges_bounds(0, events@.len() as int);
    }
    let mut received: usize = 0;
    let mut k: usize = 0;
    assert(trace.deliveries@.skip(d0) =~= Seq::<DeliveryRecord>::empty());
    while k < ranges.len()
        invariant
            k <= ranges.len(),
            rv == ranges@.map_values(|p: (usize, usize)| (p.0 as int, p.1 as int)),
            rv == batch_ranges(0, events@.len() as int),
            forall|j: int| 0 <= j < rv.len() ==> 0 <= (#[trigger] rv[j]).0 <= rv[j].1 <= events@.len(),
            jitter_max_ms <= RETRY_JITTER_MS,
            d0 == old(trace).deliveries@.len(),
            extends(old(trace).deliveries@, trace.deliveries@),
            trace.deliveries@.len() == d0 + k,
            forall|i: int|
                0 <= i < k ==> (#[trigger] trace.deliveries@.skip(d0)[i]).0 == batch_body(*device, events@, rv[i])
                    && trace.deliveries@.skip(d0)[i].1 is Ok,
            received as int == if total_received(trace.deliveries@.skip(d0), rv) > usize::MAX {
                usize::MAX as int
            } else {
                total_received(trace.deliveries@.skip(d0), rv)
            },
        decreases ranges.len() - k,
    {
        let (a, b) = ranges[k];
        assert(rv[k as int] == (a as int, b as int));
        let chunk = slice_events(events, a, b);
        let body = webhook_body(device, chunk.as_slice());
        let ghost before = trace.deliveries@;
        let res = post_with_retry(poster, trace, webhook_url, body.as_str(), jitter_max_ms);
        proof {
            assert(trace.deliveries@.skip(d0) =~= before.skip(d0).push((body@, res)));
            assert(trace.deliveries@.skip(d0).drop_last() =~= before.skip(d0));
        }
        let reply = match res {
            Ok(v) => v,
            Err(e) => {
                return Err(e);
            },
        };
        let n = parse_received(&reply, b - a);
        let n = match n {
            Ok(n) => n,
            Err(e) => {
                return Err(e);
            },
        };
        received = received.saturating_add(n);
        k += 1;
    }
    proof {
        assert(trace.deliveries@.skip(d0).len() == rv.len());
    }
    Ok(crate::ports::WebhookResult { received })
}

/// Events go out in order, in batches of at most 500 that together cover
/// each event exactly once: the first batch starts at the first event, each
/// next one starts where the one before ended, and the last ends at the end.
pub proof fn law_batches_cover_events(start: int, n: int)
    requires
        0 <= start < n,
    ensures
        batch_ranges(start, n).len() > 0,
        batch_ranges(start, n)[0].0 == start,
        batch_ranges(start, n).last().1 == n,
        forall|j: int|
            0 <= j < batch_ranges(start, n).len() ==> 0 < (#[trigger] batch_ranges(start, n)[j]).1
                - batch_ranges(start, n)[j].0 <= 500,
        forall|j: int|
            0 < j < batch_ranges(start, n).len() ==> (#[trigger] batch_ranges(start, n)[j]).0 == batch_ranges(
                start,
                n,
            )[j - 1].1,
    decreases n - start,
{
    if start + 500 < n {
        law_batches_cover_events(start + 500, n);
        let s = batch_ranges(start, n);
        let t = batch_ranges(start + 500, n);
        assert(s == seq![(start, start + 500)] + t);
        assert forall|j: int| 0 < j < s.len() implies #[trigger] s[j] == t[j - 1] by {}
    }
}

/// Every batch range lies within the events.
proof fn lemma_batch_ranges_bounds(start: int, n: int)
    requires
        0 <= start,
    ensures
        forall|j: int|
            0 <= j < batch_ranges(start, n).len() ==> start <= (#[trigger] batch_ranges(start, n)[j]).0 <= batch_ranges(
                start,
                n,
            )[j].1 <= n,
    decreases n - start,
{
    if start < n && start + 500 < n {
        lemma_batch_ranges_bounds(start + 500, n);
        let s = batch_ranges(start, n);
        let t = batch_ranges(start + 500, n);
        assert forall|j: int| 0 < j < s.len() implies #[trigger] s[j] == t[j - 1] by {}
    }
}

fn slice_events(events: &[HrmsEvent], a: usize, b: usize) -> (r: Vec<HrmsEvent>)
    requires
        a <= b <= events@.len(),
    ensures
        event_views(r@) == event_views(events@.subrange(a as int, b as int)),
{
    let mut out: Vec<HrmsEvent> = Vec::new();
    let mut i = a;
    while i < b
        invariant
            a <= i <= b <= events@.len(),
            event_views(out@) == event_views(events@.subrange(a as int, i as int)),
        decreases b - i,
    {
        let e = crate::domain::copy_event(&events[i]);
        let ghost before = out@;
        let ghost ev = e@;
        out.push(e);
        assert(out@ == before.push(e));
        assert(events@.subrange(a as int, i + 1) =~= events@.subrange(a as int, i as int).push(events@[i as int]));
        assert(event_views(out@) =~= event_views(before).push(ev));
        assert(event_views(events@.subrange(a as int, i + 1)) =~= event_views(events@.subrange(a as int, i as int)).push(events@[i as int]@));
        i += 1;
    }
    out
}

} // verus!
