//! The bridge's local HTTP API: `GET /health`, `POST /sync` (all devices or
//! `?device=CODE`) and CORS preflight. This module decides what a request
//! asks for and writes the answers; serving sockets and starting the syncs
//! stay with the caller.

use vstd::prelude::*;

use crate::receiver::{json_string, push_json_string};
use vstd::string::StringSliceAdditionalSpecFns;
use crate::text::{
    chars_of, has_prefix_str, push_dec, push_str, slice_chars, starts_with, str_eq, string_of,
    utf8_len,
};

verus! {

/// What a request to the bridge API asks for.
#[derive(Debug, Clone, Copy, PartialEq, Eq)]
pub enum ApiRoute {
    Health,
    Sync,
    Options,
    NotFound,
}

pub open spec fn api_route_of(method: Seq<char>, path: Seq<char>) -> ApiRoute {
    if method == "GET"@ && path == "/health"@ {
        ApiRoute::Health
    } else if method == "POST"@ && path == "/sync"@ {
        ApiRoute::Sync
    } else if method == "OPTIONS"@ {
        ApiRoute::Options
    } else {
        ApiRoute::NotFound
    }
}

pub fn api_route(method: &str, path: &str) -> (r: ApiRoute)
    ensures
        r == api_route_of(method@, path@),
{
    if str_eq(method, "GET") && str_eq(path, "/health") {
        ApiRoute::Health
    } else if str_eq(method, "POST") && str_eq(path, "/sync") {
        ApiRoute::Sync
    } else if str_eq(method, "OPTIONS") {
        ApiRoute::Options
    } else {
        ApiRoute::NotFound
    }
}

/// The reason phrase the API gives a status.
pub open spec fn api_status_text(status: u16) -> Seq<char> {
    if status == 200 {
        "OK"@
    } else if status == 202 {
        "Accepted"@
    } else if status == 204 {
        "No Content"@
    } else if status == 400 {
        "Bad Request"@
    } else if status == 404 {
        "Not Found"@
    } else if status == 429 {
        "Too Many Requests"@
    } else {
        "OK"@
    }
}

fn status_text(status: u16) -> (r: &'static str)
    ensures
        r@ == api_status_text(status),
{
    if status == 200 {
        "OK"
    } else if status == 202 {
        "Accepted"
    } else if status == 204 {
        "No Content"
    } else if status == 400 {
        "Bad Request"
    } else if status == 404 {
        "Not Found"
    } else if status == 429 {
        "Too Many Requests"
    } else {
        "OK"
    }
}

/// A JSON answer of the API.
pub open spec fn api_json_response(status: u16, body: Seq<char>) -> Seq<char> {
    "HTTP/1.1 "@ + crate::text::dec(status as nat) + " "@ + api_status_text(status)
        + "\r\nContent-Type: application/json\r\nAccess-Control-Allow-Origin: *\r\nContent-Length: "@
        + crate::text::dec(vstd::utf8::encode_utf8(body).len()) + "\r\nConnection: close\r\n\r\n"@ + body
}

pub fn api_json(status: u16, body: &str) -> (r: String)
    ensures
        r@ == api_json_response(status, body@),
{
    let mut s = String::from_str("HTTP/1.1 ");
    push_dec(&mut s, status as u64);
    push_str(&mut s, " ");
    push_str(&mut s, status_text(status));
    push_str(
        &mut s,
        "\r\nContent-Type: application/json\r\nAccess-Control-Allow-Origin: *\r\nContent-Length: ",
    );
    push_dec(&mut s, body.as_bytes().len() as u64);
    push_str(&mut s, "\r\nConnection: close\r\n\r\n");
    push_str(&mut s, body);
    assert(body.spec_bytes() == vstd::utf8::encode_utf8(body@));
    assert(s@ =~= api_json_response(status, body@));
    s
}

/// The CORS preflight answer.
pub fn api_options() -> (r: &'static str)
    ensures
        r@ == "HTTP/1.1 204 No Content\r\nAccess-Control-Allow-Origin: *\r\nAccess-Control-Allow-Methods: GET, POST, OPTIONS\r\nAccess-Control-Allow-Headers: Content-Type\r\nContent-Length: 0\r\n\r\n"@,
{
    "HTTP/1.1 204 No Content\r\nAccess-Control-Allow-Origin: *\r\nAccess-Control-Allow-Methods: GET, POST, OPTIONS\r\nAccess-Control-Allow-Headers: Content-Type\r\nContent-Length: 0\r\n\r\n"
}

/// A pretty-printed object with one string member.
pub open spec fn one_member(key: Seq<char>, value: Seq<char>) -> Seq<char> {
    "{\n  "@ + json_string(key) + ": "@ + json_string(value) + "\n}"@
}

fn one_member_text(key: &str, value: &str) -> (r: String)
    ensures
        r@ == one_member(key@, value@),
{
    let mut s = String::from_str("{\n  ");
    push_json_string(&mut s, key);
    push_str(&mut s, ": ");
    push_json_string(&mut s, value);
    push_str(&mut s, "\n}");
    s
}

/// The answer to an unknown route.
pub fn not_found_response() -> (r: String)
    ensures
        r@ == api_json_response(404, one_member("error"@, "not found"@)),
{
    let body = one_member_text("error", "not found");
    api_json(404, body.as_str())
}

/// The answer to a request whose head cannot be read: 400 with the reason.
pub fn bad_request_response(reason: &str) -> (r: String)
    ensures
        r@ == api_json_response(400, one_member("error"@, reason@)),
{
    let body = one_member_text("error", reason);
    api_json(400, body.as_str())
}

// ── POST /sync ───────────────────────────────────────────────────────────────

/// What a sync request does, given the configured device codes and which
/// of them are syncing now.
pub enum SyncPlan {
    /// `?device=CODE` names no configured device.
    UnknownDevice(Seq<char>),
    /// The named device is already syncing.
    Busy(Seq<char>),
    /// Start the device at this position.
    StartOne(int),
    /// Start every idle device; report the started and skipped codes.
    StartAll(Seq<int>),
}

/// The first device with this code.
pub open spec fn code_index(codes: Seq<Seq<char>>, code: Seq<char>) -> Option<int>
    decreases codes.len(),
{
    if codes.len() == 0 {
        None
    } else if codes[0] == code {
        Some(0)
    } else {
        match code_index(codes.drop_first(), code) {
            Some(i) => Some(i + 1),
            None => None,
        }
    }
}

/// The positions of the idle devices, in order.
pub open spec fn idle_positions(syncing: Seq<bool>) -> Seq<int>
    decreases syncing.len(),
{
    if syncing.len() == 0 {
        seq![]
    } else if syncing.last() {
        idle_positions(syncing.drop_last())
    } else {
        idle_positions(syncing.drop_last()).push(syncing.len() - 1)
    }
}

pub open spec fn sync_plan(query: Seq<char>, codes: Seq<Seq<char>>, syncing: Seq<bool>) -> SyncPlan {
    if starts_with(query, "device="@) {
        let code = query.skip(7);
        match code_index(codes, code) {
            None => SyncPlan::UnknownDevice(code),
            Some(i) => if syncing[i] {
                SyncPlan::Busy(code)
            } else {
                SyncPlan::StartOne(i)
            },
        }
    } else {
        SyncPlan::StartAll(idle_positions(syncing))
    }
}

/// The codes of the first `n` devices whose syncing flag is `busy`, in order.
pub open spec fn codes_with(codes: Seq<Seq<char>>, syncing: Seq<bool>, busy: bool, n: int) -> Seq<Seq<char>>
    decreases n,
{
    if n <= 0 {
        seq![]
    } else if syncing[n - 1] == busy {
        codes_with(codes, syncing, busy, n - 1).push(codes[n - 1])
    } else {
        codes_with(codes, syncing, busy, n - 1)
    }
}

/// A pretty-printed JSON list of texts, indented as a member of an object.
pub open spec fn list_text(items: Seq<Seq<char>>) -> Seq<char> {
    if items.len() == 0 {
        "[]"@
    } else {
        "[\n"@ + list_items(items) + "\n  ]"@
    }
}

pub open spec fn list_items(items: Seq<Seq<char>>) -> Seq<char>
    decreases items.len(),
{
    if items.len() == 0 {
        seq![]
    } else if items.len() == 1 {
        "    "@ + json_string(items[0])
    } else {
        list_items(items.drop_last()) + ",\n    "@ + json_string(items.last())
    }
}

/// The answer to `POST /sync` for all devices.
pub open spec fn all_started_body(started: Seq<Seq<char>>, skipped: Seq<Seq<char>>) -> Seq<char> {
    "{\n  \"message\": \"sync started\",\n  \"ok\": true,\n  \"skipped\": "@ + list_text(skipped)
        + ",\n  \"started\": "@ + list_text(started) + "\n}"@
}

/// The answer to `POST /sync?device=CODE` when the sync starts.
pub open spec fn one_started_body(code: Seq<char>) -> Seq<char> {
    "{\n  \"message\": "@ + json_string("sync started for "@ + code) + ",\n  \"ok\": true\n}"@
}

fn push_list(s: &mut String, items: &Vec<String>)
    ensures
        final(s)@ == old(s)@ + list_text(items@.map_values(|t: String| t@)),
{
    let ghost iv = items@.map_values(|t: String| t@);
    if items.len() == 0 {
        push_str(s, "[]");
        return;
    }
    push_str(s, "[\n    ");
    push_json_string(s, items[0].as_str());
    proof {
        reveal_strlit("[\n    ");
        reveal_strlit("[\n");
        reveal_strlit("    ");
    }
    let ghost base = old(s)@ + "[\n"@;
    assert(iv.take(1).len() == 1 && iv.take(1)[0] == items@[0]@);
    assert(s@ =~= base + list_items(iv.take(1)));
    let mut i: usize = 1;
    while i < items.len()
        invariant
            1 <= i <= items.len(),
            iv == items@.map_values(|t: String| t@),
            s@ == base + list_items(iv.take(i as int)),
        decreases items.len() - i,
    {
        push_str(s, ",\n    ");
        push_json_string(s, items[i].as_str());
        assert(iv.take(i + 1).drop_last() =~= iv.take(i as int));
        assert(iv.take(i + 1).last() == items@[i as int]@);
        i += 1;
    }
    assert(iv.take(i as int) =~= iv);
    push_str(s, "\n  ]");
}

fn find_code(codes: &Vec<String>, code: &str) -> (r: Option<usize>)
    ensures
        match r {
            Some(i) => i < codes.len() && code_index(codes@.map_values(|c: String| c@), code@) == Some(i as int),
            None => code_index(codes@.map_values(|c: String| c@), code@) is None,
        },
{
    let ghost cv = codes@.map_values(|c: String| c@);
    let mut i: usize = 0;
    assert(cv.skip(0) =~= cv);
    while i < codes.len()
        invariant
            i <= codes.len(),
            cv == codes@.map_values(|c: String| c@),
            code_index(cv, code@) == match code_index(cv.skip(i as int), code@) {
                Some(k) => Some(k + i),
                None => None,
            },
        decreases codes.len() - i,
    {
        assert(cv.skip(i as int)[0] == codes@[i as int]@);
        assert(cv.skip(i as int).drop_first() =~= cv.skip(i + 1));
        if str_eq(codes[i].as_str(), code) {
            return Some(i);
        }
        i += 1;
    }
    None
}

/// What the API answers a sync request, and which devices to start.
pub struct SyncAnswer {
    /// The positions of the devices to start now.
    pub start: Vec<usize>,
    /// The HTTP response.
    pub response: String,
}

/// Decides a sync request and writes its answer.
pub fn plan_sync(query: &str, codes: &Vec<String>, syncing: &Vec<bool>) -> (r: SyncAnswer)
    requires
        codes.len() == syncing.len(),
    ensures
        match sync_plan(query@, codes@.map_values(|c: String| c@), syncing@) {
            SyncPlan::UnknownDevice(code) => r.start@.len() == 0 && r.response@ == api_json_response(
                404,
                one_member("error"@, "device '"@ + code + "' not found in config"@),
            ),
            SyncPlan::Busy(code) => r.start@.len() == 0 && r.response@ == api_json_response(
                429,
                one_member("error"@, "["@ + code + "] sync already in progress"@),
            ),
            SyncPlan::StartOne(i) => r.start@ == seq![i as usize] && r.response@ == api_json_response(
                202,
                one_started_body(codes@[i]@),
            ),
            SyncPlan::StartAll(idle) => {
                &&& r.start@.len() == idle.len()
                &&& forall|k: int| 0 <= k < idle.len() ==> r.start@[k] as int == #[trigger] idle[k]
                &&& r.response@ == api_json_response(
                    202,
                    all_started_body(
                        codes_with(codes@.map_values(|c: String| c@), syncing@, false, codes.len() as int),
                        codes_with(codes@.map_values(|c: String| c@), syncing@, true, codes.len() as int),
                    ),
                )
            },
        },
{
    let ghost cv = codes@.map_values(|c: String| c@);
    let qc = chars_of(query);
    proof {
        reveal_strlit("device=");
    }
    if has_prefix_str(qc.as_slice(), "device=") {
        let code = string_of(slice_chars(qc.as_slice(), 7, qc.len()).as_slice());
        assert(code@ =~= query@.skip(7));
        let i = match find_code(codes, code.as_str()) {
            Some(i) => i,
            None => codes.len(),
        };
        if i == codes.len() {
            let mut m = String::from_str("device '");
            push_str(&mut m, code.as_str());
            push_str(&mut m, "' not found in config");
            let body = one_member_text("error", m.as_str());
            return SyncAnswer { start: Vec::new(), response: api_json(404, body.as_str()) };
        }
        if syncing[i] {
            let mut m = String::from_str("[");
            push_str(&mut m, code.as_str());
            push_str(&mut m, "] sync already in progress");
            let body = one_member_text("error", m.as_str());
            return SyncAnswer { start: Vec::new(), response: api_json(429, body.as_str()) };
        }
        let mut body = String::from_str("{\n  \"message\": ");
        let mut msg = String::from_str("sync started for ");
        push_str(&mut msg, codes[i].as_str());
        push_json_string(&mut body, msg.as_str());
        push_str(&mut body, ",\n  \"ok\": true\n}");
        let mut start: Vec<usize> = Vec::new();
        start.push(i);
        assert(start@ =~= seq![i]);
        return SyncAnswer { start, response: api_json(202, body.as_str()) };
    }
    let mut started: Vec<String> = Vec::new();
    let mut skipped: Vec<String> = Vec::new();
    let mut start: Vec<usize> = Vec::new();
    let mut i: usize = 0;
    assert(started@.map_values(|c: String| c@) =~= Seq::<Seq<char>>::empty());
    assert(skipped@.map_values(|c: String| c@) =~= Seq::<Seq<char>>::empty());
    while i < codes.len()
        invariant
            i <= codes.len(),
            codes.len() == syncing.len(),
            start@.len() == idle_positions(syncing@.take(i as int)).len(),
            forall|k: int|
                0 <= k < start@.len() ==> start@[k] as int == #[trigger] idle_positions(
                    syncing@.take(i as int),
                )[k],
            cv == codes@.map_values(|c: String| c@),
            started@.map_values(|c: String| c@) == codes_with(cv, syncing@, false, i as int),
            skipped@.map_values(|c: String| c@) == codes_with(cv, syncing@, true, i as int),
        decreases codes.len() - i,
    {
        assert(syncing@.take(i + 1).drop_last() =~= syncing@.take(i as int));
        let ghost st = started@.map_values(|c: String| c@);
        let ghost sk = skipped@.map_values(|c: String| c@);
        let c = codes[i].clone();
        assert(c@ == cv[i as int]);
        if syncing[i] {
            skipped.push(c);
            assert(skipped@.map_values(|c: String| c@) =~= sk.push(cv[i as int]));
            assert(started@.map_values(|c: String| c@) =~= st);
        } else {
            started.push(c);
            start.push(i);
            assert(started@.map_values(|c: String| c@) =~= st.push(cv[i as int]));
            assert(skipped@.map_values(|c: String| c@) =~= sk);
        }
        i += 1;
    }
    assert(syncing@.take(i as int) =~= syncing@);
    let mut body = String::from_str("{\n  \"message\": \"sync started\",\n  \"ok\": true,\n  \"skipped\": ");
    push_list(&mut body, &skipped);
    push_str(&mut body, ",\n  \"started\": ");
    push_list(&mut body, &started);
    push_str(&mut body, "\n}");
    SyncAnswer { start, response: api_json(202, body.as_str()) }
}

} // verus!
