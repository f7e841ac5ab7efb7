//! The mock servers used for testing without hardware: a ZKTeco device that
//! answers the commands the bridge sends, and an HRMS webhook that accepts
//! events and jobs. This module decides each answer; the sockets stay with
//! the caller.

use vstd::prelude::*;

use crate::protocol::{
    fixed_field, fixed_bytes, get16, get32, get_u16, get_u32, le16, le32, make_tcp_packet, push_bytes,
    push_fixed, push_le16, push_le32, slice_bytes, tcp_packet, CMD_ACK_OK, CMD_ATTLOG_RRQ,
    CMD_CLEAR_ATTLOG, CMD_CONNECT, CMD_DATA, CMD_DB_RRQ, CMD_EXIT, CMD_GET_FREE_SIZES, CMD_GET_VERSION,
    CMD_OPTIONS_RRQ, CMD_PREPARE_BUFFER, CMD_USERTEMP_RRQ, MACHINE_PREPARE_DATA_1,
    MACHINE_PREPARE_DATA_2,
};
use crate::text::{decode_utf8_lossy, ends_with, push_str, str_eq, utf8_lossy, contains_text};
use vstd::string::StringSliceAdditionalSpecFns;

verus! {

/// The mock device's fixed identity.
pub const MOCK_DEVICE_CODE: &'static str = "MOCK-GATE-01";
pub const MOCK_API_KEY: &'static str = "mock-key";
pub const MOCK_ORGANIZATION_ID: u64 = 1;
pub const MOCK_SERIAL: &'static str = "MOCK-SN-0001";
pub const MOCK_FIRMWARE: &'static str = "MockFW 6.60";
pub const MOCK_PLATFORM: &'static str = "MOCK_PLATFORM";
pub const MOCK_DEVICE_NAME: &'static str = "MockDevice";

/// One attendance record held by the mock device.
#[derive(Debug, Clone, Copy, PartialEq, Eq)]
pub struct MockRecord {
    pub uid: u16,
    /// The time in the device's encoding.
    pub timestamp: u32,
    pub punch: u8,
}

/// The device's time encoding of a wall-clock time (two-digit year).
pub open spec fn encoded_time(year: int, month: int, day: int, hour: int, minute: int, second: int) -> int {
    (year * 12 * 31 + (month - 1) * 31 + day - 1) * (24 * 60 * 60) + hour * 3600 + minute * 60 + second
}

pub fn encode_time(year: u32, month: u32, day: u32, hour: u32, minute: u32, second: u32) -> (r: u32)
    requires
        year < 100,
        1 <= month <= 12,
        1 <= day <= 31,
        hour < 24,
        minute < 60,
        second < 60,
    ensures
        r == encoded_time(year as int, month as int, day as int, hour as int, minute as int, second as int),
{
    assert((year * 12 * 31 + (month - 1) * 31 + day - 1) * 86400 + hour * 3600 + minute * 60 + second
        <= 3300000000) by (nonlinear_arith)
        requires
            year < 100,
            1 <= month <= 12,
            1 <= day <= 31,
            hour < 24,
            minute < 60,
            second < 60,
    ;
    (year * 12 * 31 + (month - 1) * 31 + day - 1) * (24 * 60 * 60) + hour * 3600 + minute * 60 + second
}

/// The most records the mock device holds: nine bytes each, the attendance
/// buffer with its size field and packet header must fit the `u32` length a
/// frame carries.
pub const MOCK_RECORD_LIMIT: usize = 477218586;

/// The `i`th pre-populated record: user 1001 + i (wrapping in 16 bits),
/// checking in on even and out on odd positions.
pub fn mock_record(i: usize, timestamp: u32) -> (r: MockRecord)
    ensures
        r.uid == (1001 + i) % 65536,
        r.timestamp == timestamp,
        r.punch == (if i % 2 == 0 {
            0u8
        } else {
            1u8
        }),
{
    let low = (i % 65536) as u16;
    let uid = low.wrapping_add(1001);
    assert(uid == (1001 + i) % 65536) by {
        assert((low as int + 1001) % 65536 == (1001 + i) % 65536) by (nonlinear_arith)
            requires
                low as int == i as int % 65536,
        ;
    }
    MockRecord { uid, timestamp, punch: if i % 2 == 0 {
        0
    } else {
        1
    } }
}

// ── The device's answers ─────────────────────────────────────────────────────

/// The reply id of an answer: one more than the request's, wrapping, and
/// never 65535.
pub open spec fn next_reply(recv: u16) -> u16 {
    let r = ((recv as int + 1) % 65536) as u16;
    if r == 65535 {
        0
    } else {
        r
    }
}

pub fn next_reply_id(recv: u16) -> (r: u16)
    ensures
        r == next_reply(recv),
{
    let r = recv.wrapping_add(1);
    if r == 65535 {
        0
    } else {
        r
    }
}

/// The free-sizes block: twenty little-endian `i32`; field 4 is the number
/// of users, 6 of templates, 8 of records.
pub open spec fn sizes_block(records: int) -> Seq<u8> {
    Seq::new(16, |i: int| 0u8) + le32(1) + le32(0) + le32(1) + le32(0) + le32(records) + Seq::new(
        44,
        |i: int| 0u8,
    )
}

fn push_zeros(v: &mut Vec<u8>, n: usize)
    ensures
        final(v)@ == old(v)@ + Seq::new(n as nat, |i: int| 0u8),
{
    let mut k: usize = 0;
    while k < n
        invariant
            k <= n,
            v@ == old(v)@ + Seq::new(k as nat, |i: int| 0u8),
        decreases n - k,
    {
        v.push(0u8);
        k += 1;
        assert(v@ =~= old(v)@ + Seq::new(k as nat, |i: int| 0u8));
    }
}

fn sizes_data(records: u32) -> (r: Vec<u8>)
    ensures
        r@ == sizes_block(records as int),
{
    let mut v: Vec<u8> = Vec::new();
    push_zeros(&mut v, 16);
    push_le32(&mut v, 1);
    push_le32(&mut v, 0);
    push_le32(&mut v, 1);
    push_le32(&mut v, 0);
    push_le32(&mut v, records);
    push_zeros(&mut v, 44);
    assert(v@ =~= sizes_block(records as int));
    v
}

/// One record in the 8-byte wire format: uid, status 1, time, punch.
pub open spec fn record_bytes(r: MockRecord) -> Seq<u8> {
    le16(r.uid as int) + seq![1u8] + le32(r.timestamp as int) + seq![r.punch]
}

pub open spec fn records_bytes(rs: Seq<MockRecord>) -> Seq<u8>
    decreases rs.len(),
{
    if rs.len() == 0 {
        seq![]
    } else {
        records_bytes(rs.drop_last()) + record_bytes(rs.last())
    }
}

proof fn lemma_records_bytes_len(rs: Seq<MockRecord>)
    ensures
        records_bytes(rs).len() == 8 * rs.len(),
    decreases rs.len(),
{
    if rs.len() > 0 {
        lemma_records_bytes_len(rs.drop_last());
    }
}

/// The 72-byte zk8 user record of the mock user.
pub open spec fn user_record_bytes(uid: u16, user_id: Seq<char>, name: Seq<char>) -> Seq<u8> {
    le16(uid as int) + seq![0u8] + fixed_field(seq![], 8) + fixed_field(
        vstd::utf8::encode_utf8(name),
        24,
    ) + le32(0) + seq![0u8] + fixed_field(vstd::utf8::encode_utf8("0"@), 7) + seq![0u8] + fixed_field(
        vstd::utf8::encode_utf8(user_id),
        24,
    )
}

pub fn mock_user_record(uid: u16, user_id: &str, name: &str) -> (r: Vec<u8>)
    ensures
        r@ == user_record_bytes(uid, user_id@, name@),
{
    let mut b: Vec<u8> = Vec::new();
    push_le16(&mut b, uid);
    b.push(0);
    let empty: Vec<u8> = Vec::new();
    push_fixed(&mut b, empty.as_slice(), 8);
    assert(empty@ =~= seq![]);
    push_fixed(&mut b, name.as_bytes(), 24);
    push_le32(&mut b, 0);
    b.push(0);
    push_fixed(&mut b, "0".as_bytes(), 7);
    b.push(0);
    push_fixed(&mut b, user_id.as_bytes(), 24);
    assert(b@ =~= user_record_bytes(uid, user_id@, name@));
    b
}

/// A template record: size, uid, finger id, valid flag, template.
pub open spec fn template_record_bytes(uid: u16, fid: u8, template: Seq<u8>) -> Seq<u8> {
    le16(template.len() + 6int) + le16(uid as int) + seq![fid, 1u8] + template
}

pub fn mock_template_record(uid: u16, fid: u8, template: &[u8]) -> (r: Vec<u8>)
    requires
        template.len() + 6 <= u16::MAX,
    ensures
        r@ == template_record_bytes(uid, fid, template@),
{
    let mut b: Vec<u8> = Vec::new();
    push_le16(&mut b, (template.len() + 6) as u16);
    push_le16(&mut b, uid);
    b.push(fid);
    b.push(1);
    push_bytes(&mut b, template);
    assert(b@ =~= template_record_bytes(uid, fid, template@));
    b
}

/// A data block: its length as a little-endian `u32`, then the bytes.
pub open spec fn sized(b: Seq<u8>) -> Seq<u8> {
    le32(b.len() as int) + b
}

fn sized_block(b: &[u8]) -> (r: Vec<u8>)
    requires
        b.len() <= u32::MAX,
    ensures
        r@ == sized(b@),
{
    let mut v: Vec<u8> = Vec::new();
    push_le32(&mut v, b.len() as u32);
    push_bytes(&mut v, b);
    v
}

/// The value the mock device gives an option.
pub open spec fn option_value(name: Seq<char>) -> Seq<char> {
    if name == "~SerialNumber"@ {
        "MOCK-SN-0001"@
    } else if name == "~Platform"@ {
        "MOCK_PLATFORM"@
    } else if name == "~DeviceName"@ {
        "MockDevice"@
    } else {
        ""@
    }
}

/// The bytes before the first NUL.
pub open spec fn before_nul(b: Seq<u8>) -> Seq<u8>
    decreases b.len(),
{
    if b.len() == 0 {
        b
    } else if b[0] == 0 {
        seq![]
    } else {
        seq![b[0]] + before_nul(b.drop_first())
    }
}

fn before_nul_bytes(b: &[u8]) -> (r: Vec<u8>)
    ensures
        r@ == before_nul(b@),
{
    let mut i: usize = 0;
    assert(b@.take(0) =~= seq![]);
    assert(b@.skip(0) =~= b@);
    while i < b.len() && b[i] != 0
        invariant
            i <= b.len(),
            forall|k: int| 0 <= k < i ==> b@[k] != 0,
            before_nul(b@) == b@.take(i as int) + before_nul(b@.skip(i as int)),
        decreases b.len() - i,
    {
        assert(b@.skip(i as int).drop_first() =~= b@.skip(i + 1));
        assert(b@.take(i + 1) =~= b@.take(i as int) + seq![b@[i as int]]);
        i += 1;
    }
    if i < b.len() {
        assert(before_nul(b@.skip(i as int)) =~= seq![]);
    } else {
        assert(b@.skip(i as int) =~= seq![]);
    }
    let r = slice_bytes(b, 0, i);
    assert(r@ =~= b@.take(i as int) + before_nul(b@.skip(i as int)));
    r
}

/// The connection state of one client of the mock device.
pub struct MockSession {
    pub session_id: u16,
}

/// What the mock device does with one request.
pub struct MockStep {
    /// The answer packet.
    pub reply: Vec<u8>,
    /// The client said goodbye: close after answering.
    pub close: bool,
    /// The records were cleared; this many were held before.
    pub cleared: Option<usize>,
}

/// The command and reply id of a request packet, and its payload.
pub open spec fn request_parts(packet: Seq<u8>) -> (u16, u16, Seq<u8>) {
    (get16(packet, 0) as u16, get16(packet, 6) as u16, packet.skip(8))
}

/// The command and payload of the mock device's answer to a request, given
/// the session id before it and the records it holds.
pub open spec fn mock_answer(cmd: u16, data: Seq<u8>, records: Seq<MockRecord>) -> (u16, Seq<u8>) {
    if cmd == CMD_GET_FREE_SIZES {
        (CMD_ACK_OK, sizes_block(records.len() as int))
    } else if cmd == CMD_GET_VERSION {
        (CMD_ACK_OK, vstd::utf8::encode_utf8("MockFW 6.60\0"@))
    } else if cmd == CMD_OPTIONS_RRQ {
        let name = utf8_lossy(before_nul(data));
        (CMD_ACK_OK, vstd::utf8::encode_utf8(name + "="@ + option_value(name) + "\0"@))
    } else if cmd == CMD_PREPARE_BUFFER {
        let sub = if data.len() >= 2 {
            data[1]
        } else {
            0u8
        };
        if sub == CMD_ATTLOG_RRQ {
            (CMD_DATA, sized(records_bytes(records)))
        } else if sub == CMD_USERTEMP_RRQ {
            (CMD_DATA, sized(user_record_bytes(1001, "1001"@, "MockUser"@)))
        } else if sub == CMD_DB_RRQ {
            (CMD_DATA, sized(template_record_bytes(1001, 0, seq![0xAAu8, 0xBB, 0xCC, 0xDD])))
        } else {
            (CMD_ACK_OK, seq![])
        }
    } else {
        (CMD_ACK_OK, seq![])
    }
}

/// Answers one request packet (the bytes after the frame header). `CONNECT`
/// opens session 12345; `EXIT` closes; `CLEAR_ATTLOG` empties the records.
pub fn mock_device_step(session: &mut MockSession, records: &mut Vec<MockRecord>, packet: &[u8]) -> (r: MockStep)
    requires
        packet.len() >= 8,
        old(records).len() <= MOCK_RECORD_LIMIT,
    ensures
        ({
            let (cmd, recv, data) = request_parts(packet@);
            let sid = if cmd == CMD_CONNECT {
                12345u16
            } else {
                old(session).session_id
            };
            let (answer, payload) = mock_answer(cmd, data, old(records)@);
            &&& final(session).session_id == sid
            &&& if payload.len() + 8 <= u32::MAX {
                &&& r.reply@ == tcp_packet(answer, payload, sid, next_reply(recv))
                &&& r.close == (cmd == CMD_EXIT)
            } else {
                r.reply@.len() == 0 && r.close
            }
            &&& if cmd == CMD_CLEAR_ATTLOG {
                final(records)@.len() == 0 && r.cleared == Some(old(records)@.len() as usize)
            } else {
                final(records)@ == old(records)@ && r.cleared is None
            }
        }),
{
    let cmd = get_u16(packet, 0);
    let recv = get_u16(packet, 6);
    let data = slice_bytes(packet, 8, packet.len());
    assert(data@ =~= packet@.skip(8));
    let reply_id = next_reply_id(recv);
    if cmd == CMD_CONNECT {
        session.session_id = 12345;
    }
    let sid = session.session_id;
    let mut cleared: Option<usize> = None;
    let (answer, payload): (u16, Vec<u8>) = if cmd == CMD_GET_FREE_SIZES {
        (CMD_ACK_OK, sizes_data(records.len() as u32))
    } else if cmd == CMD_GET_VERSION {
        let s = "MockFW 6.60\0";
        let mut v: Vec<u8> = Vec::new();
        push_bytes(&mut v, s.as_bytes());
        (CMD_ACK_OK, v)
    } else if cmd == CMD_OPTIONS_RRQ {
        let raw = before_nul_bytes(data.as_slice());
        let name = decode_utf8_lossy(raw.as_slice());
        let value: &str = if str_eq(name.as_str(), "~SerialNumber") {
            "MOCK-SN-0001"
        } else if str_eq(name.as_str(), "~Platform") {
            "MOCK_PLATFORM"
        } else if str_eq(name.as_str(), "~DeviceName") {
            "MockDevice"
        } else {
            ""
        };
        let mut body = name.clone();
        push_str(&mut body, "=");
        push_str(&mut body, value);
        push_str(&mut body, "\0");
        let mut v: Vec<u8> = Vec::new();
        push_bytes(&mut v, body.as_str().as_bytes());
        (CMD_ACK_OK, v)
    } else if cmd == CMD_PREPARE_BUFFER {
        let sub: u8 = if data.len() >= 2 {
            data[1]
        } else {
            0
        };
        if sub == CMD_ATTLOG_RRQ {
            let mut bytes: Vec<u8> = Vec::new();
            let mut i: usize = 0;
            while i < records.len()
                invariant
                    i <= records.len(),
                    records.len() <= MOCK_RECORD_LIMIT,
                    bytes@ == records_bytes(records@.take(i as int)),
                decreases records.len() - i,
            {
                let rec = records[i];
                push_le16(&mut bytes, rec.uid);
                bytes.push(1);
                push_le32(&mut bytes, rec.timestamp);
                bytes.push(rec.punch);
                assert(records@.take(i + 1).drop_last() =~= records@.take(i as int));
                i += 1;
                assert(bytes@ =~= records_bytes(records@.take(i as int)));
            }
            assert(records@.take(i as int) =~= records@);
            proof {
                lemma_records_bytes_len(records@);
            }
            (CMD_DATA, sized_block(bytes.as_slice()))
        } else if sub == CMD_USERTEMP_RRQ {
            let user = mock_user_record(1001, "1001", "MockUser");
            (CMD_DATA, sized_block(user.as_slice()))
        } else if sub == CMD_DB_RRQ {
            let t: Vec<u8> = vec![0xAAu8, 0xBB, 0xCC, 0xDD];
            let rec = mock_template_record(1001, 0, t.as_slice());
            assert(t@ =~= seq![0xAAu8, 0xBB, 0xCC, 0xDD]);
            (CMD_DATA, sized_block(rec.as_slice()))
        } else {
            (CMD_ACK_OK, Vec::new())
        }
    } else {
        if cmd == CMD_CLEAR_ATTLOG {
            cleared = Some(records.len());
            records.clear();
        }
        (CMD_ACK_OK, Vec::new())
    };
    proof {
        reveal_strlit("MockFW 6.60\0");
        reveal_strlit("~SerialNumber");
        reveal_strlit("~Platform");
        reveal_strlit("~DeviceName");
    }
    if payload.len() > 4294967287 {
        return MockStep { reply: Vec::new(), close: true, cleared };
    }
    let reply = make_tcp_packet(answer, payload.as_slice(), sid, reply_id);
    MockStep { reply, close: cmd == CMD_EXIT, cleared }
}

// ── Mock HRMS ────────────────────────────────────────────────────────────────

/// What the mock HRMS does with a request.
#[derive(Debug, Clone, Copy, PartialEq, Eq)]
pub enum HrmsRoute {
    /// Record the posted event batch and answer `{"ok":true}`.
    Webhook,
    /// List the recorded events.
    Events,
    /// Forget the recorded events.
    Reset,
    Health,
    /// The job poller asks for jobs: there are none.
    PendingJobs,
    NotFound,
}

pub open spec fn hrms_route_of(method: Seq<char>, path: Seq<char>) -> HrmsRoute {
    if method == "POST"@ {
        HrmsRoute::Webhook
    } else if method == "GET"@ && path == "/events"@ {
        HrmsRoute::Events
    } else if method == "GET"@ && path == "/reset"@ {
        HrmsRoute::Reset
    } else if method == "GET"@ && path == "/health"@ {
        HrmsRoute::Health
    } else if method == "GET"@ && (ends_with(path, "/pending-jobs"@) || contains_text(
        path,
        "/biometric-devices/pending-jobs"@,
    )) {
        HrmsRoute::PendingJobs
    } else {
        HrmsRoute::NotFound
    }
}

/// Routes a request to the mock HRMS. Every `POST` counts as a webhook
/// delivery, job completions included.
pub fn hrms_route(method: &str, path: &str) -> (r: HrmsRoute)
    ensures
        r == hrms_route_of(method@, path@),
{
    let pc = crate::text::chars_of(path);
    let suffix = crate::text::chars_of("/pending-jobs");
    let inner = crate::text::chars_of("/biometric-devices/pending-jobs");
    if str_eq(method, "POST") {
        HrmsRoute::Webhook
    } else if str_eq(method, "GET") && str_eq(path, "/events") {
        HrmsRoute::Events
    } else if str_eq(method, "GET") && str_eq(path, "/reset") {
        HrmsRoute::Reset
    } else if str_eq(method, "GET") && str_eq(path, "/health") {
        HrmsRoute::Health
    } else if str_eq(method, "GET") && (crate::text::has_suffix(pc.as_slice(), suffix.as_slice())
        || crate::text::contains_chars(pc.as_slice(), inner.as_slice())) {
        HrmsRoute::PendingJobs
    } else {
        HrmsRoute::NotFound
    }
}

/// The reason phrase the mock HRMS gives a status.
pub open spec fn mock_reason(status: u16) -> Seq<char> {
    if status == 200 {
        "OK"@
    } else if status == 404 {
        "Not Found"@
    } else {
        "Unknown"@
    }
}

/// A JSON answer of the mock HRMS.
pub open spec fn mock_json_response(status: u16, body: Seq<char>) -> Seq<char> {
    "HTTP/1.1 "@ + crate::text::dec(status as nat) + " "@ + mock_reason(status)
        + "\r\nContent-Type: application/json\r\nConnection: close\r\nContent-Length: "@
        + crate::text::dec(vstd::utf8::encode_utf8(body).len()) + "\r\n\r\n"@ + body
}

pub fn mock_http_json(status: u16, body: &str) -> (r: String)
    ensures
        r@ == mock_json_response(status, body@),
{
    let reason = if status == 200 {
        "OK"
    } else if status == 404 {
        "Not Found"
    } else {
        "Unknown"
    };
    let mut s = String::from_str("HTTP/1.1 ");
    crate::text::push_dec(&mut s, status as u64);
    push_str(&mut s, " ");
    push_str(&mut s, reason);
    push_str(&mut s, "\r\nContent-Type: application/json\r\nConnection: close\r\nContent-Length: ");
    crate::text::push_dec(&mut s, body.as_bytes().len() as u64);
    push_str(&mut s, "\r\n\r\n");
    push_str(&mut s, body);
    assert(body.spec_bytes() == vstd::utf8::encode_utf8(body@));
    assert(s@ =~= mock_json_response(status, body@));
    s
}

/// The fixed answer of a route that needs no state (webhook deliveries,
/// resets, health, jobs and unknown paths); `None` for the event list.
pub open spec fn fixed_answer(route: HrmsRoute) -> Option<Seq<char>> {
    match route {
        HrmsRoute::Webhook => Some(
            "HTTP/1.1 200 OK\r\nContent-Type: application/json\r\nConnection: close\r\nContent-Length: 11\r\n\r\n{\"ok\":true}"@,
        ),
        HrmsRoute::Events => None,
        HrmsRoute::Reset => Some(mock_json_response(200, "{\"ok\":true}"@)),
        HrmsRoute::Health => Some(mock_json_response(200, "{\"ok\":true,\"agent\":\"mock-hrms\"}"@)),
        HrmsRoute::PendingJobs => Some(
            mock_json_response(200, "{\"statusCode\":200,\"message\":\"Success\",\"data\":[]}"@),
        ),
        HrmsRoute::NotFound => Some(mock_json_response(404, "{\"ok\":false,\"message\":\"not found\"}"@)),
    }
}

pub fn mock_hrms_answer(route: HrmsRoute) -> (r: Option<String>)
    ensures
        match fixed_answer(route) {
            Some(a) => r matches Some(t) && t@ == a,
            None => r is None,
        },
{
    match route {
        HrmsRoute::Webhook => Some(
            String::from_str(
                "HTTP/1.1 200 OK\r\nContent-Type: application/json\r\nConnection: close\r\nContent-Length: 11\r\n\r\n{\"ok\":true}",
            ),
        ),
        HrmsRoute::Events => None,
        HrmsRoute::Reset => Some(mock_http_json(200, "{\"ok\":true}")),
        HrmsRoute::Health => Some(mock_http_json(200, "{\"ok\":true,\"agent\":\"mock-hrms\"}")),
        HrmsRoute::PendingJobs => Some(
            mock_http_json(200, "{\"statusCode\":200,\"message\":\"Success\",\"data\":[]}"),
        ),
        HrmsRoute::NotFound => Some(mock_http_json(404, "{\"ok\":false,\"message\":\"not found\"}")),
    }
}

} // verus!
