//! The SenseFace / ADMS HTTP receiver: how a request head is read, which
//! handler a request reaches, and the exact bytes each handler answers with.
//! Sockets stay with the caller; everything here works on what was read.

use vstd::prelude::*;
use vstd::string::StringSliceAdditionalSpecFns;

use crate::config::SenseFaceConfig;
use crate::ports::SenseFaceStore;
use crate::zk_client::extends;
use crate::senseface::{
    attendance_fields, PendingForwardAttendance, hex_lower, parsed_attendance, parsed_user, request_bytes, sha256, user_fields, compute_event_key, compute_request_hash, parse_attendance_line, parse_user_line,
    SenseFaceAttendance, SenseFaceUser,
};
use crate::text::{
    byte_len_upto, chars_of, dec, decode_utf8_lossy, eq_str, find_char, find_word, first_index,
    has_prefix_str, lines_of, lower_chars, lower_seq, nat_text, next_word, parse_u64_chars,
    push_chars, push_dec, push_str, slice_chars, split_chars, split_on, starts_with, string_of,
    text_lines, trim, trim_chars, upper_seq, utf8_len, utf8_lossy,
};

verus! {

/// The most header bytes read before a request is refused.
pub const MAX_HEADER_BYTES: usize = 16384;

/// The largest body accepted.
pub const MAX_BODY_BYTES: usize = 10485760;

// ── JSON text ────────────────────────────────────────────────────────────────

/// One character as it appears inside a JSON string (serde_json's escaping).
pub open spec fn json_char(c: char) -> Seq<char> {
    let u = c as u32;
    if c == '"' {
        seq!['\\', '"']
    } else if c == '\\' {
        seq!['\\', '\\']
    } else if u == 8 {
        seq!['\\', 'b']
    } else if u == 12 {
        seq!['\\', 'f']
    } else if c == '\n' {
        seq!['\\', 'n']
    } else if c == '\r' {
        seq!['\\', 'r']
    } else if c == '\t' {
        seq!['\\', 't']
    } else if u < 32 {
        seq!['\\', 'u', '0', '0', crate::senseface::hex_digit((u / 16) as nat), crate::senseface::hex_digit((u % 16) as nat)]
    } else {
        seq![c]
    }
}

/// The escaped body of a JSON string.
pub open spec fn json_escaped(s: Seq<char>) -> Seq<char>
    decreases s.len(),
{
    if s.len() == 0 {
        seq![]
    } else {
        json_escaped(s.drop_last()) + json_char(s.last())
    }
}

/// A JSON string literal.
pub open spec fn json_string(s: Seq<char>) -> Seq<char> {
    seq!['"'] + json_escaped(s) + seq!['"']
}

fn hexc(d: u32) -> (c: char)
    requires
        d < 16,
    ensures
        c == crate::senseface::hex_digit(d as nat),
{
    if d < 10 {
        ((48 + d) as u8) as char
    } else {
        ((87 + d) as u8) as char
    }
}

/// Appends `s` as a JSON string literal.
pub fn push_json_string(out: &mut String, s: &str)
    ensures
        final(out)@ == old(out)@ + json_string(s@),
{
    let cs = chars_of(s);
    let mut v: Vec<char> = Vec::new();
    v.push('"');
    let mut i: usize = 0;
    while i < cs.len()
        invariant
            i <= cs.len(),
            v@ == seq!['"'] + json_escaped(cs@.take(i as int)),
        decreases cs.len() - i,
    {
        let c = cs[i];
        let u = c as u32;
        assert(cs@.take(i + 1).drop_last() =~= cs@.take(i as int));
        let ghost before = v@;
        if c == '"' {
            v.push('\\');
            v.push('"');
        } else if c == '\\' {
            v.push('\\');
            v.push('\\');
        } else if u == 8 {
            v.push('\\');
            v.push('b');
        } else if u == 12 {
            v.push('\\');
            v.push('f');
        } else if c == '\n' {
            v.push('\\');
            v.push('n');
        } else if c == '\r' {
            v.push('\\');
            v.push('r');
        } else if c == '\t' {
            v.push('\\');
            v.push('t');
        } else if u < 32 {
            v.push('\\');
            v.push('u');
            v.push('0');
            v.push('0');
            v.push(hexc(u / 16));
            v.push(hexc(u % 16));
        } else {
            v.push(c);
        }
        assert(v@ =~= before + json_char(c));
        i += 1;
    }
    v.push('"');
    assert(cs@.take(cs.len() as int) =~= cs@);
    push_chars(out, v.as_slice());
    assert(final(out)@ =~= old(out)@ + json_string(s@));
}

// ── URL queries ──────────────────────────────────────────────────────────────

/// A hexadecimal digit's value.
pub open spec fn hex_value(c: char) -> Option<nat> {
    let u = c as u32;
    if 48 <= u <= 57 {
        Some((u - 48) as nat)
    } else if 97 <= u <= 102 {
        Some((u - 87) as nat)
    } else if 65 <= u <= 70 {
        Some((u - 55) as nat)
    } else {
        None
    }
}

/// `u8::from_str_radix(h, 16)` for a two-character `h` (a leading `+` is
/// accepted, as std does).
pub open spec fn hex_pair(h0: char, h1: char) -> Option<nat> {
    if h0 == '+' {
        hex_value(h1)
    } else {
        match (hex_value(h0), hex_value(h1)) {
            (Some(a), Some(b)) => Some(a * 16 + b),
            _ => None,
        }
    }
}

/// Percent-decoding as the receiver does it: `%XX` becomes the character
/// with that code (0..=255), `+` a space; a `%` without two hex digits is
/// kept with what follows it.
pub open spec fn url_decoded(s: Seq<char>) -> Seq<char>
    decreases s.len(),
{
    if s.len() == 0 {
        seq![]
    } else if s[0] == '%' {
        if s.len() >= 3 && hex_pair(s[1], s[2]) is Some {
            seq![(hex_pair(s[1], s[2])->0) as char] + url_decoded(s.skip(3))
        } else if s.len() >= 3 {
            seq!['%', s[1], s[2]] + url_decoded(s.skip(3))
        } else {
            s
        }
    } else if s[0] == '+' {
        seq![' '] + url_decoded(s.drop_first())
    } else {
        seq![s[0]] + url_decoded(s.drop_first())
    }
}

fn hex_val(c: char) -> (r: Option<u32>)
    ensures
        match r {
            Some(v) => hex_value(c) == Some(v as nat) && v < 16,
            None => hex_value(c) is None,
        },
{
    let u = c as u32;
    if 48 <= u && u <= 57 {
        Some(u - 48)
    } else if 97 <= u && u <= 102 {
        Some(u - 87)
    } else if 65 <= u && u <= 70 {
        Some(u - 55)
    } else {
        None
    }
}

fn hex_pair_val(h0: char, h1: char) -> (r: Option<u8>)
    ensures
        match r {
            Some(v) => hex_pair(h0, h1) == Some(v as nat),
            None => hex_pair(h0, h1) is None,
        },
{
    if h0 == '+' {
        match hex_val(h1) {
            Some(b) => Some(b as u8),
            None => None,
        }
    } else {
        match (hex_val(h0), hex_val(h1)) {
            (Some(a), Some(b)) => Some((a * 16 + b) as u8),
            _ => None,
        }
    }
}

pub fn url_decode(input: &str) -> (r: String)
    ensures
        r@ == url_decoded(input@),
{
    let s = chars_of(input);
    let mut out: Vec<char> = Vec::new();
    let mut i: usize = 0;
    assert(s@.skip(0) =~= s@);
    while i < s.len()
        invariant
            i <= s.len(),
            url_decoded(s@) == out@ + url_decoded(s@.skip(i as int)),
        decreases s.len() - i,
    {
        let ghost t = s@.skip(i as int);
        let ghost before = out@;
        assert(t[0] == s@[i as int]);
        if s[i] == '%' {
            if s.len() - i >= 3 {
                assert(t[1] == s@[i + 1] && t[2] == s@[i + 2]);
                assert(t.skip(3) =~= s@.skip(i + 3));
                match hex_pair_val(s[i + 1], s[i + 2]) {
                    Some(b) => {
                        out.push(b as char);
                    },
                    None => {
                        out.push('%');
                        out.push(s[i + 1]);
                        out.push(s[i + 2]);
                    },
                }
                i += 3;
            } else {
                while i < s.len()
                    invariant
                        i <= s.len(),
                        out@ + s@.skip(i as int) == before + t,
                    decreases s.len() - i,
                {
                    let ghost o = out@;
                    out.push(s[i]);
                    assert(s@.skip(i as int) =~= seq![s@[i as int]] + s@.skip(i + 1));
                    assert(out@ =~= o.push(s@[i as int]));
                    i += 1;
                }
                assert(s@.skip(i as int) =~= Seq::<char>::empty());
            }
        } else {
            assert(t.drop_first() =~= s@.skip(i + 1));
            if s[i] == '+' {
                out.push(' ');
            } else {
                out.push(s[i]);
            }
            i += 1;
        }
        assert(url_decoded(s@) == out@ + url_decoded(s@.skip(i as int)));
    }
    assert(out@ + url_decoded(s@.skip(i as int)) =~= out@);
    string_of(out.as_slice())
}

/// The value of the first `&`-separated pair of `query` that starts with
/// `key`, if any.
pub open spec fn query_value(query: Seq<char>, key: Seq<char>) -> Option<Seq<char>> {
    first_keyed(split_on(query, '&'), key)
}

/// The rest of the first item of `items` that starts with `key`.
pub open spec fn first_keyed(items: Seq<Seq<char>>, key: Seq<char>) -> Option<Seq<char>>
    decreases items.len(),
{
    if items.len() == 0 {
        None
    } else if starts_with(items[0], key) {
        Some(items[0].skip(key.len() as int))
    } else {
        first_keyed(items.drop_first(), key)
    }
}

fn find_keyed(query: &str, key: &str) -> (r: Option<Vec<char>>)
    ensures
        match r {
            Some(v) => query_value(query@, key@) == Some(v@),
            None => query_value(query@, key@) is None,
        },
{
    let q = chars_of(query);
    let parts = split_chars(q.as_slice(), '&');
    let ghost pv = parts@.map_values(|p: Vec<char>| p@);
    let kv = chars_of(key);
    let mut i: usize = 0;
    assert(pv.skip(0) =~= pv);
    while i < parts.len()
        invariant
            i <= parts.len(),
            pv == parts@.map_values(|p: Vec<char>| p@),
            pv == split_on(query@, '&'),
            kv@ == key@,
            first_keyed(pv, key@) == first_keyed(pv.skip(i as int), key@),
        decreases parts.len() - i,
    {
        assert(pv.skip(i as int)[0] == parts@[i as int]@);
        assert(pv.skip(i as int).drop_first() =~= pv.skip(i + 1));
        if has_prefix_str(parts[i].as_slice(), key) {
            return Some(slice_chars(parts[i].as_slice(), kv.len(), parts[i].len()));
        }
        i += 1;
    }
    None
}

/// The terminal serial a query names (`SN=`, percent-decoded), or
/// `UNKNOWN`.
pub open spec fn serial_of(query: Seq<char>) -> Seq<char> {
    match query_value(query, "SN="@) {
        Some(v) => url_decoded(v),
        None => "UNKNOWN"@,
    }
}

pub fn extract_sn(query: &str) -> (r: String)
    ensures
        r@ == serial_of(query@),
{
    match find_keyed(query, "SN=") {
        Some(v) => url_decode(string_of(v.as_slice()).as_str()),
        None => String::from_str("UNKNOWN"),
    }
}

/// What `str::to_uppercase` gives (full Unicode case mapping).
pub uninterp spec fn unicode_upper(s: Seq<char>) -> Seq<char>;

/// `str::to_uppercase`. The contract names the result and states the one
/// fact std documents that callers use: ASCII text upper-cases letter by
/// letter.
#[verifier::external_body]
fn to_uppercase(s: &str) -> (r: String)
    ensures
        r@ == unicode_upper(s@),
        vstd::string::is_ascii(s) ==> r@ == upper_seq(s@),
{
    s.to_uppercase()
}

/// The table a query names (`table=`, upper-cased), or the empty text.
pub open spec fn table_of(query: Seq<char>) -> Seq<char> {
    match query_value(query, "table="@) {
        Some(v) => unicode_upper(v),
        None => seq![],
    }
}

pub fn extract_table(query: &str) -> (r: String)
    ensures
        r@ == table_of(query@),
{
    match find_keyed(query, "table=") {
        Some(v) => to_uppercase(string_of(v.as_slice()).as_str()),
        None => String::new(),
    }
}

} // verus!

verus! {

// ── Request heads ────────────────────────────────────────────────────────────

/// Whether the head read so far is complete (ends with a blank line).
pub fn head_complete(raw: &[u8]) -> (r: bool)
    ensures
        r == (raw@.len() >= 4 && raw@.skip(raw@.len() - 4) == seq![13u8, 10u8, 13u8, 10u8]),
{
    let n = raw.len();
    if n < 4 {
        return false;
    }
    let r = raw[n - 4] == 13 && raw[n - 3] == 10 && raw[n - 2] == 13 && raw[n - 1] == 10;
    proof {
        if r {
            assert(raw@.skip(n - 4) =~= seq![13u8, 10u8, 13u8, 10u8]);
        } else {
            if raw@.skip(n - 4) == seq![13u8, 10u8, 13u8, 10u8] {
                assert(raw@.skip(n - 4)[0] == raw@[n - 4]);
                assert(raw@.skip(n - 4)[1] == raw@[n - 3]);
                assert(raw@.skip(n - 4)[2] == raw@[n - 2]);
                assert(raw@.skip(n - 4)[3] == raw@[n - 1]);
            }
        }
    }
    r
}

/// What was read of a request before its body.
pub struct RequestHead {
    pub method: String,
    pub target: String,
    pub content_length: usize,
}

/// The declared body length: the first header line that, ASCII
/// lower-cased, starts with `content-length:` and whose rest parses as a
/// `usize` (after trimming); 0 when there is none.
pub open spec fn declared_length(lines: Seq<Seq<char>>) -> nat
    decreases lines.len(),
{
    if lines.len() == 0 {
        0
    } else {
        let l = lower_seq(lines[0]);
        let v = nat_text(trim(l.skip(15)));
        if starts_with(l, "content-length:"@) && v is Some && v->0 <= usize::MAX {
            v->0
        } else {
            declared_length(lines.drop_first())
        }
    }
}

/// The method, target and declared length of a request head, or the message
/// a 400 answer carries.
pub open spec fn request_head(raw: Seq<u8>) -> Result<(Seq<char>, Seq<char>, nat), Seq<char>> {
    let ls = text_lines(utf8_lossy(raw));
    if ls.len() == 0 {
        Err("empty request"@)
    } else {
        let l = ls[0];
        match next_word(l, 0) {
            None => Err("malformed request"@),
            Some((a, b)) => {
                let m = l.subrange(a, b);
                if utf8_len(m) > 16 {
                    Err("malformed request"@)
                } else {
                    match next_word(l, b) {
                        None => Err("malformed request"@),
                        Some((c, d)) => {
                            let t = l.subrange(c, d);
                            if t[0] != '/' || utf8_len(t) > 1024 {
                                Err("malformed request"@)
                            } else {
                                Ok((m, t, declared_length(ls.drop_first())))
                            }
                        },
                    }
                }
            },
        }
    }
}

fn content_length_of(lines: &Vec<Vec<char>>) -> (n: usize)
    requires
        lines.len() >= 1,
    ensures
        n == declared_length(lines@.map_values(|l: Vec<char>| l@).drop_first()),
{
    let ghost lv = lines@.map_values(|l: Vec<char>| l@);
    let mut i: usize = 1;
    let prefix = chars_of("content-length:");
    proof {
        reveal_strlit("content-length:");
        assert(lv.drop_first() =~= lv.skip(1));
    }
    while i < lines.len()
        invariant
            1 <= i,
            lv == lines@.map_values(|l: Vec<char>| l@),
            prefix@ == "content-length:"@,
            prefix.len() == 15,
            i <= lines.len(),
            declared_length(lv.drop_first()) == declared_length(lv.skip(i as int)),
        decreases lines.len() - i,
    {
        let ghost t = lv.skip(i as int);
        assert(t[0] == lines@[i as int]@);
        assert(t.drop_first() =~= lv.skip(i + 1));
        let l = lower_chars(lines[i].as_slice());
        if has_prefix_str(l.as_slice(), "content-length:") {
            let rest = slice_chars(l.as_slice(), prefix.len(), l.len());
            assert(rest@ =~= l@.skip(15));
            let v = trim_chars(rest.as_slice());
            match parse_u64_chars(v.as_slice()) {
                Some(n) => {
                    if n <= usize::MAX as u64 {
                        return n as usize;
                    }
                },
                None => {},
            }
        }
        i += 1;
    }
    proof {
        assert(lv.skip(i as int) =~= Seq::<Seq<char>>::empty());
    }
    0
}

/// Read a request head: the request line's method (at most 16 bytes) and
/// target (starting with `/`, at most 1024 bytes), and the declared body
/// length. `Err` holds the message of the 400 answer.
pub fn parse_request_head(raw: &[u8]) -> (r: Result<RequestHead, String>)
    ensures
        match r {
            Ok(h) => request_head(raw@) == Ok::<(Seq<char>, Seq<char>, nat), Seq<char>>((h.method@, h.target@, h.content_length as nat)),
            Err(m) => request_head(raw@) == Err::<(Seq<char>, Seq<char>, nat), Seq<char>>(m@),
        },
{
    let text = decode_utf8_lossy(raw);
    let tc = chars_of(text.as_str());
    let lines = lines_of(tc.as_slice());
    let ghost lv = lines@.map_values(|l: Vec<char>| l@);
    if lines.len() == 0 {
        return Err(String::from_str("empty request"));
    }
    let l = lines[0].as_slice();
    assert(lv[0] == l@);
    let (a, b) = match find_word(l, 0) {
        Some(w) => w,
        None => {
            return Err(String::from_str("malformed request"));
        },
    };
    let m = slice_chars(l, a, b);
    if byte_len_upto(m.as_slice(), 16) > 16 {
        return Err(String::from_str("malformed request"));
    }
    let (c, d) = match find_word(l, b) {
        Some(w) => w,
        None => {
            return Err(String::from_str("malformed request"));
        },
    };
    let t = slice_chars(l, c, d);
    if t[0] != '/' || byte_len_upto(t.as_slice(), 1024) > 1024 {
        return Err(String::from_str("malformed request"));
    }
    let n = content_length_of(&lines);
    Ok(RequestHead { method: string_of(m.as_slice()), target: string_of(t.as_slice()), content_length: n })
}

// ── Routes ───────────────────────────────────────────────────────────────────

/// Which handler a request reaches.
#[derive(Debug, Clone, Copy, PartialEq, Eq, Structural)]
pub enum Route {
    GetCdata,
    GetRequest,
    PostCdata,
    PostDeviceCmd,
    PostRegistry,
    Health,
    Root,
    Options,
    NotFound,
}

/// The path of a target (before the first `?`).
pub open spec fn target_path(t: Seq<char>) -> Seq<char> {
    match first_index(t, '?') {
        Some(i) => t.take(i),
        None => t,
    }
}

/// The query of a target (after the first `?`), or the empty text.
pub open spec fn target_query(t: Seq<char>) -> Seq<char> {
    match first_index(t, '?') {
        Some(i) => t.skip(i + 1),
        None => seq![],
    }
}

/// The handler for a method and path.
pub open spec fn route_of(method: Seq<char>, path: Seq<char>) -> Route {
    if method == "GET"@ && path == "/iclock/cdata"@ {
        Route::GetCdata
    } else if method == "GET"@ && path == "/iclock/getrequest"@ {
        Route::GetRequest
    } else if method == "POST"@ && path == "/iclock/cdata"@ {
        Route::PostCdata
    } else if method == "POST"@ && path == "/iclock/devicecmd"@ {
        Route::PostDeviceCmd
    } else if method == "POST"@ && path == "/iclock/registry"@ {
        Route::PostRegistry
    } else if method == "GET"@ && (path == "/senseface/health"@ || path == "/health"@) {
        Route::Health
    } else if method == "GET"@ && path == "/"@ {
        Route::Root
    } else if method == "OPTIONS"@ {
        Route::Options
    } else {
        Route::NotFound
    }
}

/// Split a target into path and query.
pub fn split_target(target: &str) -> (r: (String, String))
    ensures
        r.0@ == target_path(target@),
        r.1@ == target_query(target@),
{
    let t = chars_of(target);
    match find_char(t.as_slice(), '?') {
        Some(i) => (
            string_of(slice_chars(t.as_slice(), 0, i).as_slice()),
            string_of(slice_chars(t.as_slice(), i + 1, t.len()).as_slice()),
        ),
        None => {
            proof {
                reveal_strlit("");
            }
            (string_of(t.as_slice()), String::new())
        },
    }
}

pub fn route(method: &str, path: &str) -> (r: Route)
    ensures
        r == route_of(method@, path@),
{
    let m = chars_of(method);
    let p = chars_of(path);
    let m = m.as_slice();
    let p = p.as_slice();
    if eq_str(m, "GET") && eq_str(p, "/iclock/cdata") {
        Route::GetCdata
    } else if eq_str(m, "GET") && eq_str(p, "/iclock/getrequest") {
        Route::GetRequest
    } else if eq_str(m, "POST") && eq_str(p, "/iclock/cdata") {
        Route::PostCdata
    } else if eq_str(m, "POST") && eq_str(p, "/iclock/devicecmd") {
        Route::PostDeviceCmd
    } else if eq_str(m, "POST") && eq_str(p, "/iclock/registry") {
        Route::PostRegistry
    } else if eq_str(m, "GET") && (eq_str(p, "/senseface/health") || eq_str(p, "/health")) {
        Route::Health
    } else if eq_str(m, "GET") && eq_str(p, "/") {
        Route::Root
    } else if eq_str(m, "OPTIONS") {
        Route::Options
    } else {
        Route::NotFound
    }
}

} // verus!

verus! {

// ── Responses ────────────────────────────────────────────────────────────────

/// Reason phrase of a plain-text answer.
pub open spec fn plain_status_text(status: u16) -> Seq<char> {
    if status == 200 {
        "OK"@
    } else if status == 400 {
        "Bad Request"@
    } else if status == 404 {
        "Not Found"@
    } else if status == 413 {
        "Request Entity Too Large"@
    } else {
        "OK"@
    }
}

/// Reason phrase of a JSON answer.
pub open spec fn json_status_text(status: u16) -> Seq<char> {
    if status == 200 {
        "OK"@
    } else if status == 400 {
        "Bad Request"@
    } else if status == 404 {
        "Not Found"@
    } else if status == 500 {
        "Internal Server Error"@
    } else {
        "OK"@
    }
}

/// A complete plain-text HTTP answer.
pub open spec fn plain_response(status: u16, body: Seq<char>) -> Seq<char> {
    "HTTP/1.1 "@ + dec(status as nat) + " "@ + plain_status_text(status)
        + "\r\nContent-Type: text/plain; charset=utf-8\r\nContent-Length: "@ + dec(
        vstd::utf8::encode_utf8(body).len(),
    ) + "\r\nAccess-Control-Allow-Origin: *\r\nConnection: close\r\n\r\n"@ + body
}

/// A complete JSON HTTP answer.
pub open spec fn json_response(status: u16, body: Seq<char>) -> Seq<char> {
    "HTTP/1.1 "@ + dec(status as nat) + " "@ + json_status_text(status)
        + "\r\nContent-Type: application/json\r\nAccess-Control-Allow-Origin: *\r\nContent-Length: "@
        + dec(vstd::utf8::encode_utf8(body).len()) + "\r\nConnection: close\r\n\r\n"@ + body
}

/// The answer to a CORS preflight.
pub open spec fn options_response() -> Seq<char> {
    "HTTP/1.1 204 No Content\r\nAccess-Control-Allow-Origin: *\r\nAccess-Control-Allow-Methods: GET, POST, OPTIONS\r\nAccess-Control-Allow-Headers: Content-Type, X-API-Key\r\nContent-Length: 0\r\n\r\n"@
}

/// A JSON error answer `{"error": message}`.
pub open spec fn error_response(status: u16, message: Seq<char>) -> Seq<char> {
    json_response(status, "{\"error\":"@ + json_string(message) + "}"@)
}

fn plain_text(status: u16) -> (r: &'static str)
    ensures
        r@ == plain_status_text(status),
{
    if status == 200 {
        "OK"
    } else if status == 400 {
        "Bad Request"
    } else if status == 404 {
        "Not Found"
    } else if status == 413 {
        "Request Entity Too Large"
    } else {
        "OK"
    }
}

fn json_text(status: u16) -> (r: &'static str)
    ensures
        r@ == json_status_text(status),
{
    if status == 200 {
        "OK"
    } else if status == 400 {
        "Bad Request"
    } else if status == 404 {
        "Not Found"
    } else if status == 500 {
        "Internal Server Error"
    } else {
        "OK"
    }
}

pub fn write_plain(status: u16, body: &str) -> (r: String)
    ensures
        r@ == plain_response(status, body@),
{
    let mut s = String::from_str("HTTP/1.1 ");
    push_dec(&mut s, status as u64);
    push_str(&mut s, " ");
    push_str(&mut s, plain_text(status));
    push_str(&mut s, "\r\nContent-Type: text/plain; charset=utf-8\r\nContent-Length: ");
    push_dec(&mut s, body.as_bytes().len() as u64);
    push_str(&mut s, "\r\nAccess-Control-Allow-Origin: *\r\nConnection: close\r\n\r\n");
    push_str(&mut s, body);
    assert(body.spec_bytes() == vstd::utf8::encode_utf8(body@));
    assert(s@ =~= plain_response(status, body@));
    s
}

pub fn write_json(status: u16, body: &str) -> (r: String)
    ensures
        r@ == json_response(status, body@),
{
    let mut s = String::from_str("HTTP/1.1 ");
    push_dec(&mut s, status as u64);
    push_str(&mut s, " ");
    push_str(&mut s, json_text(status));
    push_str(
        &mut s,
        "\r\nContent-Type: application/json\r\nAccess-Control-Allow-Origin: *\r\nContent-Length: ",
    );
    push_dec(&mut s, body.as_bytes().len() as u64);
    push_str(&mut s, "\r\nConnection: close\r\n\r\n");
    push_str(&mut s, body);
    assert(body.spec_bytes() == vstd::utf8::encode_utf8(body@));
    assert(s@ =~= json_response(status, body@));
    s
}

pub fn write_options() -> (r: String)
    ensures
        r@ == options_response(),
{
    String::from_str(
        "HTTP/1.1 204 No Content\r\nAccess-Control-Allow-Origin: *\r\nAccess-Control-Allow-Methods: GET, POST, OPTIONS\r\nAccess-Control-Allow-Headers: Content-Type, X-API-Key\r\nContent-Length: 0\r\n\r\n",
    )
}

pub fn write_error(status: u16, message: &str) -> (r: String)
    ensures
        r@ == error_response(status, message@),
{
    let mut body = String::from_str("{\"error\":");
    push_json_string(&mut body, message);
    push_str(&mut body, "}");
    write_json(status, body.as_str())
}

/// The options a terminal gets on `GET /iclock/cdata`.
pub open spec fn cdata_options(serial: Seq<char>, device_now: Seq<char>) -> Seq<char> {
    "GET OPTION FROM: "@ + serial
        + "\r\nATTLOGStamp=0\r\nOPERLOGStamp=0\r\nATTPHOTOStamp=0\r\nErrorDelay=60\r\nDelay=10\r\nTransTimes=00:00\r\nTransInterval=1\r\nTransFlag=TransData AttLog OpLog EnrollUser ChgUser\r\nTimeZone=0\r\nDateTime="@
        + device_now + "\r\nRealtime=1\r\nEncrypt=0\r\nPushProtVer=2.4.1\r\n"@
}

pub fn cdata_reply(serial: &str, device_now: &str) -> (r: String)
    ensures
        r@ == cdata_options(serial@, device_now@),
{
    let mut s = String::from_str("GET OPTION FROM: ");
    push_str(&mut s, serial);
    push_str(
        &mut s,
        "\r\nATTLOGStamp=0\r\nOPERLOGStamp=0\r\nATTPHOTOStamp=0\r\nErrorDelay=60\r\nDelay=10\r\nTransTimes=00:00\r\nTransInterval=1\r\nTransFlag=TransData AttLog OpLog EnrollUser ChgUser\r\nTimeZone=0\r\nDateTime=",
    );
    push_str(&mut s, device_now);
    push_str(&mut s, "\r\nRealtime=1\r\nEncrypt=0\r\nPushProtVer=2.4.1\r\n");
    s
}

/// The command a terminal gets on `GET /iclock/getrequest`: ask for the user
/// table while some employees are unknown.
pub open spec fn getrequest_command(missing: nat, command_id: int) -> Seq<char> {
    if missing > 0 {
        "C:"@ + crate::text::dec_int(command_id) + ":DATA QUERY USERINFO\r\n"@
    } else {
        "\r\n"@
    }
}

pub fn getrequest_reply(missing: usize, command_id: i64) -> (r: String)
    ensures
        r@ == getrequest_command(missing as nat, command_id as int),
{
    if missing > 0 {
        let mut s = String::from_str("C:");
        let id = crate::text::fmt_i64(command_id);
        push_str(&mut s, id.as_str());
        push_str(&mut s, ":DATA QUERY USERINFO\r\n");
        s
    } else {
        String::from_str("\r\n")
    }
}

/// The acknowledgement of a push: how many new records were stored.
pub open spec fn cdata_ack(inserted: nat) -> Seq<char> {
    if inserted > 0 {
        "OK: "@ + dec(inserted)
    } else {
        "OK"@
    }
}

pub fn post_cdata_reply(inserted: usize) -> (r: String)
    ensures
        r@ == cdata_ack(inserted as nat),
{
    if inserted > 0 {
        let mut s = String::from_str("OK: ");
        push_dec(&mut s, inserted as u64);
        s
    } else {
        String::from_str("OK")
    }
}

/// The health document (keys in serde_json's sorted order).
pub open spec fn health_json(server_time: Seq<char>, pending: nat) -> Seq<char> {
    "{\"pending_forward\":"@ + dec(pending) + ",\"server_time\":"@ + json_string(server_time)
        + ",\"service\":\"senseface-adms-receiver\",\"status\":\"ok\"}"@
}

pub fn health_body(server_time: &str, pending: usize) -> (r: String)
    ensures
        r@ == health_json(server_time@, pending as nat),
{
    let mut s = String::from_str("{\"pending_forward\":");
    push_dec(&mut s, pending as u64);
    push_str(&mut s, ",\"server_time\":");
    push_json_string(&mut s, server_time);
    push_str(&mut s, ",\"service\":\"senseface-adms-receiver\",\"status\":\"ok\"}");
    s
}

/// The index document served at `/`.
pub open spec fn root_json() -> Seq<char> {
    "{\"endpoints\":{\"cdata\":\"GET/POST /iclock/cdata?SN=...\",\"getrequest\":\"GET /iclock/getrequest?SN=...\",\"health\":\"/senseface/health\"},\"service\":\"FingerBridge SenseFace ADMS Receiver\",\"status\":\"ok\"}"@
}

pub fn root_body() -> (r: String)
    ensures
        r@ == root_json(),
{
    String::from_str(
        "{\"endpoints\":{\"cdata\":\"GET/POST /iclock/cdata?SN=...\",\"getrequest\":\"GET /iclock/getrequest?SN=...\",\"health\":\"/senseface/health\"},\"service\":\"FingerBridge SenseFace ADMS Receiver\",\"status\":\"ok\"}",
    )
}

// ── The receiver ─────────────────────────────────────────────────────────────

/// What the receiver answers, given the request, the store's answers and the
/// clock readings the caller took (`device_now` as `YYYY-MM-DD HH:MM:SS`,
/// `now_unix` in seconds).
pub open spec fn answer_for(
    method: Seq<char>,
    target: Seq<char>,
    device_now: Seq<char>,
    now_unix: int,
    missing: nat,
    inserted: nat,
    pending: nat,
) -> Seq<char> {
    let query = target_query(target);
    match route_of(method, target_path(target)) {
        Route::GetCdata => plain_response(200, cdata_options(serial_of(query), device_now)),
        Route::GetRequest => plain_response(200, getrequest_command(missing, now_unix)),
        Route::PostCdata => plain_response(200, cdata_ack(inserted)),
        Route::PostDeviceCmd => plain_response(200, "OK"@),
        Route::PostRegistry => plain_response(200, "OK"@),
        Route::Health => json_response(200, health_json(device_now, pending)),
        Route::Root => json_response(200, root_json()),
        Route::Options => options_response(),
        Route::NotFound => error_response(404, "not found"@),
    }
}

/// No line is an attendance record.
pub open spec fn no_attendance_lines(lines: Seq<Seq<char>>) -> bool {
    forall|i: int| 0 <= i < lines.len() ==> #[trigger] attendance_fields(lines[i]) is None
}

/// The attendance lines among a body's lines, in order.
pub open spec fn attendance_lines(ls: Seq<Seq<char>>) -> Seq<Seq<char>>
    decreases ls.len(),
{
    if ls.len() == 0 {
        seq![]
    } else {
        let rest = attendance_lines(ls.drop_last());
        if attendance_fields(ls.last()) is Some {
            rest.push(ls.last())
        } else {
            rest
        }
    }
}

/// One attendance save: the terminal serial, the record handed to the
/// store, and the store's answer (how many records were new).
pub type SaveRecord = (Seq<char>, SenseFaceAttendance, Result<usize, String>);

/// The saves a push owes: one per attendance line of the body, in order,
/// each under the terminal's serial and holding that line's record.
pub open spec fn saves_planned(s: Seq<SaveRecord>, serial: Seq<char>, body: Seq<u8>) -> bool {
    let al = attendance_lines(text_lines(utf8_lossy(body)));
    &&& s.len() == al.len()
    &&& forall|i: int| 0 <= i < s.len() ==> (#[trigger] s[i]).0 == serial && parsed_attendance(al[i], s[i].1)
}

/// How many new records the store reported over these saves.
pub open spec fn saved_total(s: Seq<SaveRecord>) -> int
    decreases s.len(),
{
    if s.len() == 0 {
        0
    } else {
        saved_total(s.drop_last()) + match s.last().2 {
            Ok(n) => n as int,
            Err(_) => 0,
        }
    }
}

/// A count held in a `usize`, saturating.
pub open spec fn capped(n: int) -> int {
    if n > usize::MAX {
        usize::MAX as int
    } else {
        n
    }
}

/// The user lines among a body's lines, in order.
pub open spec fn user_lines(ls: Seq<Seq<char>>) -> Seq<Seq<char>>
    decreases ls.len(),
{
    if ls.len() == 0 {
        seq![]
    } else {
        let rest = user_lines(ls.drop_last());
        if user_fields(ls.last()) is Some {
            rest.push(ls.last())
        } else {
            rest
        }
    }
}

/// A call the receiver makes to the store, other than an attendance save,
/// with what was handed over (and, for the queries, the answer).
pub enum StoreCall {
    /// The raw push kept: its hash, serial, table, query and body.
    RawRequest(Seq<char>, Seq<char>, Seq<char>, Seq<char>, Seq<u8>),
    /// The terminal seen: its serial and address.
    Device(Seq<char>, Seq<char>),
    /// An employee recorded under a serial.
    Employee(Seq<char>, SenseFaceUser),
    /// How many employees of a serial lack user info.
    MissingCount(Seq<char>, Result<usize, String>),
    /// Pending records read, at most this many; how many came back.
    Pending(usize, Result<nat, String>),
}

/// The employee an attendance record makes known: its id, nothing else
/// known, marked as discovered from attendance.
pub open spec fn discovered_employee(u: SenseFaceUser, a: SenseFaceAttendance) -> bool {
    &&& u.employee_id@ == a.employee_id@
    &&& u.name@ == Seq::<char>::empty()
    &&& u.privilege@ == Seq::<char>::empty()
    &&& u.card@ == Seq::<char>::empty()
    &&& u.raw_line@ == "DISCOVERED_FROM_ATTENDANCE"@
}

/// The store calls of one push, besides its saves `s`: the raw request,
/// the terminal, the employee of each saved record (in the saves' order),
/// then the employee of each user line of the body.
pub open spec fn push_calls(
    c: Seq<StoreCall>,
    s: Seq<SaveRecord>,
    serial: Seq<char>,
    table: Seq<char>,
    query: Seq<char>,
    body: Seq<u8>,
    ip: Seq<char>,
) -> bool {
    let ul = user_lines(text_lines(utf8_lossy(body)));
    let n = s.len() as int;
    &&& c.len() == 2 + n + ul.len()
    &&& c[0] == StoreCall::RawRequest(hex_lower(sha256(request_bytes(serial, query, body))), serial, table, query, body)
    &&& c[1] == StoreCall::Device(serial, ip)
    &&& forall|i: int|
        2 <= i < 2 + n ==> ((#[trigger] c[i]) matches StoreCall::Employee(sn, u) && sn == serial
            && discovered_employee(u, s[i - 2].1))
    &&& forall|i: int|
        2 + n <= i < c.len() ==> ((#[trigger] c[i]) matches StoreCall::Employee(sn, u) && sn == serial
            && parsed_user(ul[i - 2 - n], u))
}

/// A pending read's answer as a count of records.
pub open spec fn pending_count_of(a: Result<Vec<PendingForwardAttendance>, String>) -> Result<nat, String> {
    match a {
        Ok(v) => Ok(v@.len()),
        Err(e) => Err(e),
    }
}

/// The count a store answer gives: its value, or 0 on a store error.
pub open spec fn count_answer(a: Result<usize, String>) -> nat {
    match a {
        Ok(n) => n as nat,
        Err(_) => 0,
    }
}

/// The number of records a pending read gave: 0 on a store error.
pub open spec fn pending_answer(a: Result<nat, String>) -> nat {
    match a {
        Ok(n) => n,
        Err(_) => 0,
    }
}

/// The SenseFace / ADMS receiver: the store pushed records go to, and the
/// receiver's configuration.
pub struct SenseFaceReceiver {
    store: Box<dyn SenseFaceStore>,
    config: SenseFaceConfig,
    /// Every attendance save made, in order.
    saves: Ghost<Seq<SaveRecord>>,
    /// Every other store call made, in order.
    calls: Ghost<Seq<StoreCall>>,
}

impl SenseFaceReceiver {
    /// The receiver's configuration.
    pub closed spec fn settings(&self) -> SenseFaceConfig {
        self.config
    }

    /// Every attendance save made so far, in order.
    pub closed spec fn saves(&self) -> Seq<SaveRecord> {
        self.saves@
    }

    /// Every store call other than an attendance save, in order.
    pub closed spec fn calls(&self) -> Seq<StoreCall> {
        self.calls@
    }

    pub fn new(store: Box<dyn SenseFaceStore>, config: SenseFaceConfig) -> (r: Self)
        ensures
            r.settings() == config,
            r.saves().len() == 0,
            r.calls().len() == 0,
    {
        SenseFaceReceiver { store, config, saves: Ghost(Seq::empty()), calls: Ghost(Seq::empty()) }
    }

    /// The receiver's configuration.
    pub fn config(&self) -> (r: &SenseFaceConfig)
        ensures
            *r == self.settings(),
    {
        &self.config
    }

    /// Store what a terminal pushed and count the new attendance records.
    #[verifier::spinoff_prover]
    #[verifier::rlimit(40)]
    fn store_push(&mut self, serial: &str, table: &str, query: &str, body: &[u8], remote_ip: &str) -> (r: usize)
        ensures
            final(self).settings() == old(self).settings(),
            extends(old(self).saves(), final(self).saves()),
            saves_planned(final(self).saves().skip(old(self).saves().len() as int), serial@, body@),
            r as int == capped(saved_total(final(self).saves().skip(old(self).saves().len() as int))),
            no_attendance_lines(text_lines(utf8_lossy(body@))) ==> r == 0,
            extends(old(self).calls(), final(self).calls()),
            push_calls(
                final(self).calls().skip(old(self).calls().len() as int),
                final(self).saves().skip(old(self).saves().len() as int),
                serial@,
                table@,
                query@,
                body@,
                remote_ip@,
            ),
    {
        let ghost s0 = self.saves@.len() as int;
        let ghost c0 = self.calls@.len() as int;
        let request_hash = compute_request_hash(serial, query, body);
        let _ = self.store.save_raw_request(request_hash.as_str(), serial, table, query, body);
        proof {
            self.calls@ = self.calls@.push(
                StoreCall::RawRequest(request_hash@, serial@, table@, query@, body@),
            );
        }
        let _ = self.store.upsert_device(serial, remote_ip);
        proof {
            self.calls@ = self.calls@.push(StoreCall::Device(serial@, remote_ip@));
        }
        let ghost head = self.calls@;
        let text = decode_utf8_lossy(body);
        let tc = chars_of(text.as_str());
        let lines = lines_of(tc.as_slice());
        let ghost tl = text_lines(utf8_lossy(body@));
        assert(lines@.map_values(|l: Vec<char>| l@) == tl);
        let mut inserted: usize = 0;
        let mut i: usize = 0;
        assert(self.saves@.skip(s0) =~= Seq::<SaveRecord>::empty());
        assert(tl.take(0) =~= Seq::<Seq<char>>::empty());
        while i < lines.len()
            invariant
                i <= lines.len(),
                lines@.map_values(|l: Vec<char>| l@) == tl,
                no_attendance_lines(tl.take(i as int)) ==> inserted == 0,
                self.config == old(self).config,
                s0 == old(self).saves@.len(),
                extends(old(self).saves@, self.saves@),
                self.saves@.skip(s0).len() == attendance_lines(tl.take(i as int)).len(),
                forall|k: int|
                    0 <= k < self.saves@.skip(s0).len() ==> (#[trigger] self.saves@.skip(s0)[k]).0 == serial@
                        && parsed_attendance(attendance_lines(tl.take(i as int))[k], self.saves@.skip(s0)[k].1),
                inserted as int == capped(saved_total(self.saves@.skip(s0))),
                c0 == old(self).calls@.len(),
                extends(head, self.calls@),
                head.len() == c0 + 2,
                self.calls@.len() == c0 + 2 + self.saves@.skip(s0).len(),
                forall|j: int|
                    c0 + 2 <= j < self.calls@.len() ==> ((#[trigger] self.calls@[j]) matches StoreCall::Employee(
                        sn,
                        u,
                    ) && sn == serial@ && discovered_employee(u, self.saves@.skip(s0)[j - c0 - 2].1)),
            decreases lines.len() - i,
        {
            let ghost before = self.saves@;
            let ghost cbefore = self.calls@;
            assert(tl.take(i as int + 1).drop_last() =~= tl.take(i as int));
            assert(lines@[i as int]@ == tl[i as int]);
            assert(tl.take(i as int + 1) =~= tl.take(i as int).push(tl[i as int]));
            assert(no_attendance_lines(tl.take(i as int + 1)) ==> no_attendance_lines(tl.take(i as int))
                && attendance_fields(tl[i as int]) is None) by {
                if no_attendance_lines(tl.take(i as int + 1)) {
                    assert(attendance_fields(tl.take(i as int + 1)[i as int]) is None);
                    assert forall|j: int| 0 <= j < i implies #[trigger] attendance_fields(tl.take(i as int)[j]) is None by {
                        assert(tl.take(i as int)[j] == tl.take(i as int + 1)[j]);
                    }
                }
            }
            let line = string_of(lines[i].as_slice());
            match parse_attendance_line(line.as_str()) {
                Some(a) => {
                    let employee = SenseFaceUser {
                        employee_id: a.employee_id.clone(),
                        name: String::new(),
                        privilege: String::new(),
                        card: String::new(),
                        raw_line: String::from_str("DISCOVERED_FROM_ATTENDANCE"),
                    };
                    let ghost ag = a;
                    let mut one: Vec<SenseFaceAttendance> = Vec::new();
                    one.push(a);
                    let saved = self.store.save_attendance_record(serial, one.as_slice());
                    proof {
                        self.saves@ = self.saves@.push((serial@, ag, saved));
                        assert(self.saves@.skip(s0) =~= before.skip(s0).push((serial@, ag, saved)));
                        assert(self.saves@.skip(s0).drop_last() =~= before.skip(s0));
                    }
                    match saved {
                        Ok(n) => {
                            inserted = inserted.saturating_add(n);
                        },
                        Err(_) => {},
                    }
                    let _ = self.store.upsert_employee(serial, &employee);
                    proof {
                        self.calls@ = self.calls@.push(StoreCall::Employee(serial@, employee));
                        assert(self.saves@.skip(s0).last() == (serial@, ag, saved));
                        assert forall|j: int| c0 + 2 <= j < cbefore.len() implies ((#[trigger] self.calls@[j]) matches StoreCall::Employee(
                            sn,
                            u,
                        ) && sn == serial@ && discovered_employee(u, self.saves@.skip(s0)[j - c0 - 2].1)) by {
                            assert(self.calls@[j] == cbefore[j]);
                            assert(self.saves@.skip(s0)[j - c0 - 2] == before.skip(s0)[j - c0 - 2]);
                        }
                    }
                },
                None => {},
            }
            i += 1;
        }
        assert(tl.take(lines@.len() as int) =~= tl);
        let ghost snap = self.saves@;
        let ghost mid = self.calls@;
        let ghost n = self.saves@.skip(s0).len() as int;
        let mut i: usize = 0;
        assert(tl.take(0) =~= Seq::<Seq<char>>::empty());
        while i < lines.len()
            invariant
                i <= lines.len(),
                lines@.map_values(|l: Vec<char>| l@) == tl,
                self.saves@ == snap,
                self.config == old(self).config,
                extends(mid, self.calls@),
                mid.len() == c0 + 2 + n,
                self.calls@.len() == c0 + 2 + n + user_lines(tl.take(i as int)).len(),
                forall|j: int|
                    c0 + 2 + n <= j < self.calls@.len() ==> ((#[trigger] self.calls@[j]) matches StoreCall::Employee(
                        sn,
                        u,
                    ) && sn == serial@ && parsed_user(user_lines(tl.take(i as int))[j - c0 - 2 - n], u)),
            decreases lines.len() - i,
        {
            assert(lines@[i as int]@ == tl[i as int]);
            assert(tl.take(i as int + 1).drop_last() =~= tl.take(i as int));
            assert(tl.take(i as int + 1).last() == tl[i as int]);
            let line = string_of(lines[i].as_slice());
            match parse_user_line(line.as_str()) {
                Some(u) => {
                    let _ = self.store.upsert_employee(serial, &u);
                    proof {
                        self.calls@ = self.calls@.push(StoreCall::Employee(serial@, u));
                    }
                },
                None => {},
            }
            i += 1;
        }
        proof {
            assert(tl.take(lines@.len() as int) =~= tl);
            let c = self.calls@.skip(c0);
            assert(c[0] == head[c0]);
            assert(c[1] == head[c0 + 1]);
            assert forall|j: int| 2 <= j < 2 + n implies ((#[trigger] c[j]) matches StoreCall::Employee(sn, u)
                && sn == serial@ && discovered_employee(u, self.saves@.skip(s0)[j - 2].1)) by {
                assert(c[j] == mid[c0 + j]);
            }
            assert forall|j: int| 2 + n <= j < c.len() implies ((#[trigger] c[j]) matches StoreCall::Employee(sn, u)
                && sn == serial@ && parsed_user(user_lines(tl)[j - 2 - n], u)) by {
                assert(c[j] == self.calls@[c0 + j]);
            }
        }
        inserted
    }

    /// Answer one request, calling the store as the handler needs.
    pub fn respond(
        &mut self,
        method: &str,
        target: &str,
        body: &[u8],
        remote_ip: &str,
        device_now: &str,
        now_unix: i64,
    ) -> (r: String)
        ensures
            exists|missing: nat, inserted: nat, pending: nat|
                r@ == #[trigger] answer_for(method@, target@, device_now@, now_unix as int, missing, inserted, pending),
            final(self).settings() == old(self).settings(),
            extends(old(self).saves(), final(self).saves()),
            route_of(method@, target_path(target@)) != Route::PostCdata ==> final(self).saves() == old(self).saves(),
            extends(old(self).calls(), final(self).calls()),
            ({
                let c = final(self).calls().skip(old(self).calls().len() as int);
                let q = target_query(target@);
                match route_of(method@, target_path(target@)) {
                    Route::GetRequest => c.len() == 1 && (c[0] matches StoreCall::MissingCount(sn, a) && sn
                        == serial_of(q) && r@ == answer_for(
                        method@,
                        target@,
                        device_now@,
                        now_unix as int,
                        count_answer(a),
                        0,
                        0,
                    )),
                    Route::Health => c.len() == 1 && (c[0] matches StoreCall::Pending(limit, a) && limit == 1
                        && r@ == answer_for(
                        method@,
                        target@,
                        device_now@,
                        now_unix as int,
                        0,
                        0,
                        pending_answer(a),
                    )),
                    Route::PostCdata => push_calls(
                        c,
                        final(self).saves().skip(old(self).saves().len() as int),
                        serial_of(q),
                        table_of(q),
                        q,
                        body@,
                        remote_ip@,
                    ),
                    _ => c.len() == 0 && r@ == answer_for(method@, target@, device_now@, now_unix as int, 0, 0, 0),
                }
            }),
            route_of(method@, target_path(target@)) == Route::PostCdata ==> {
                let s = final(self).saves().skip(old(self).saves().len() as int);
                &&& saves_planned(s, serial_of(target_query(target@)), body@)
                &&& r@ == answer_for(
                    method@,
                    target@,
                    device_now@,
                    now_unix as int,
                    0,
                    capped(saved_total(s)) as nat,
                    0,
                )
            },
    {
        assert(self.calls@.skip(old(self).calls@.len() as int) =~= Seq::<StoreCall>::empty());
        let (path, query) = split_target(target);
        match route(method, path.as_str()) {
            Route::GetCdata => {
                let sn = extract_sn(query.as_str());
                let r = write_plain(200, cdata_reply(sn.as_str(), device_now).as_str());
                assert(r@ == answer_for(method@, target@, device_now@, now_unix as int, 0, 0, 0));
                r
            },
            Route::GetRequest => {
                let sn = extract_sn(query.as_str());
                let answer = self.store.count_missing_employees(sn.as_str());
                proof {
                    self.calls@ = self.calls@.push(StoreCall::MissingCount(sn@, answer));
                    assert(self.calls@.skip(old(self).calls@.len() as int) =~= seq![StoreCall::MissingCount(sn@, answer)]);
                }
                let missing = match answer {
                    Ok(n) => n,
                    Err(_) => 0,
                };
                let r = write_plain(200, getrequest_reply(missing, now_unix).as_str());
                assert(r@ == answer_for(method@, target@, device_now@, now_unix as int, missing as nat, 0, 0));
                r
            },
            Route::PostCdata => {
                let sn = extract_sn(query.as_str());
                let table = extract_table(query.as_str());
                let inserted = self.store_push(sn.as_str(), table.as_str(), query.as_str(), body, remote_ip);
                let r = write_plain(200, post_cdata_reply(inserted).as_str());
                assert(r@ == answer_for(method@, target@, device_now@, now_unix as int, 0, inserted as nat, 0));
                r
            },
            Route::PostDeviceCmd | Route::PostRegistry => {
                let r = write_plain(200, "OK");
                assert(r@ == answer_for(method@, target@, device_now@, now_unix as int, 0, 0, 0));
                r
            },
            Route::Health => {
                let answer = self.store.get_pending_forward_attendance(1);
                let ghost seen = pending_count_of(answer);
                proof {
                    self.calls@ = self.calls@.push(StoreCall::Pending(1, seen));
                    assert(self.calls@.skip(old(self).calls@.len() as int) =~= seq![StoreCall::Pending(1, seen)]);
                }
                let pending = match answer {
                    Ok(v) => v.len(),
                    Err(_) => 0,
                };
                let r = write_json(200, health_body(device_now, pending).as_str());
                assert(r@ == answer_for(method@, target@, device_now@, now_unix as int, 0, 0, pending as nat));
                r
            },
            Route::Root => {
                let r = write_json(200, root_body().as_str());
                assert(r@ == answer_for(method@, target@, device_now@, now_unix as int, 0, 0, 0));
                r
            },
            Route::Options => {
                let r = write_options();
                assert(r@ == answer_for(method@, target@, device_now@, now_unix as int, 0, 0, 0));
                r
            },
            Route::NotFound => {
                let r = write_error(404, "not found");
                assert(r@ == answer_for(method@, target@, device_now@, now_unix as int, 0, 0, 0));
                r
            },
        }
    }
}

/// What a head that cannot be read, or a body over the limit, is answered.
pub open spec fn refusal(raw_head: Seq<u8>) -> Option<Seq<char>> {
    match request_head(raw_head) {
        Err(m) => Some(error_response(400, m)),
        Ok((_, _, n)) => if n > MAX_BODY_BYTES {
            Some(error_response(413, "request body too large"@))
        } else {
            None
        },
    }
}

/// The answer to a request whose head cannot be read (400) or whose body
/// is over the limit (413); `None` when the request can be served.
pub fn refusal_answer(raw_head: &[u8]) -> (r: Option<String>)
    ensures
        match r {
            Some(a) => refusal(raw_head@) == Some(a@),
            None => refusal(raw_head@) is None,
        },
{
    match parse_request_head(raw_head) {
        Err(m) => Some(write_error(400, m.as_str())),
        Ok(h) => {
            if h.content_length > MAX_BODY_BYTES {
                Some(write_error(413, "request body too large"))
            } else {
                None
            }
        },
    }
}

} // verus!
