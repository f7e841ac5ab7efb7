//! SenseFace / ADMS push protocol: the records terminals push, how their
//! lines are parsed, and how pending records become HRMS events.

use sha2::Digest;
use vstd::prelude::*;
use vstd::string::StringSliceAdditionalSpecFns;

use crate::domain::{
    event_views, first_naive, insert_by_time, insert_sorted, naive_at_offset, parse_utc_offset,
    sort_by_time, utc_offset_of, EventView, HrmsEvent,
};
use crate::text::{
    byte_len_upto, chars_of, eq_str, find_char, has_prefix_str, slice_chars, split_chars,
    split_on, starts_with, string_of, trim, trim_str, utf8_len,
};

verus! {

/// One attendance line pushed by a terminal.
#[derive(Debug, Clone)]
pub struct SenseFaceAttendance {
    pub employee_id: String,
    pub event_time: String,
    pub status: String,
    pub verify_mode: String,
    pub work_code: String,
    pub reserved: String,
    pub raw_line: String,
    pub event_key: String,
}

/// One user line pushed by a terminal.
#[derive(Debug, Clone)]
pub struct SenseFaceUser {
    pub employee_id: String,
    pub name: String,
    pub privilege: String,
    pub card: String,
    pub raw_line: String,
}

/// A stored attendance record not yet forwarded to HRMS.
#[derive(Debug, Clone)]
pub struct PendingForwardAttendance {
    pub id: i64,
    pub serial_number: String,
    pub employee_id: String,
    pub event_time: String,
    pub status: String,
    pub verify_mode: String,
    pub work_code: String,
    pub employee_name: String,
}

// ── Hashing ──────────────────────────────────────────────────────────────────

/// The SHA-256 digest of a byte string.
pub uninterp spec fn sha256(data: Seq<u8>) -> Seq<u8>;

/// `sha2::Sha256::digest`: the 32-byte SHA-256 digest of `data`. The contract
/// names the digest and states its length; it claims nothing else of it.
#[verifier::external_body]
pub(crate) fn sha256_digest(data: &[u8]) -> (r: Vec<u8>)
    ensures
        r@ == sha256(data@),
        r@.len() == 32,
{
    sha2::Sha256::digest(data).to_vec()
}

/// Lower-case hexadecimal digit for `d` (0..=15).
pub open spec fn hex_digit(d: nat) -> char {
    if d < 10 {
        (48 + d) as char
    } else {
        (87 + d) as char
    }
}

/// Lower-case hexadecimal rendering of bytes (`format!("{:x}", digest)`).
pub open spec fn hex_lower(b: Seq<u8>) -> Seq<char>
    decreases b.len(),
{
    if b.len() == 0 {
        seq![]
    } else {
        hex_lower(b.drop_last()) + seq![hex_digit((b.last() / 16) as nat), hex_digit((b.last() % 16) as nat)]
    }
}

fn hex_char(d: u8) -> (c: char)
    requires
        d < 16,
    ensures
        c == hex_digit(d as nat),
{
    if d < 10 {
        ((48 + d) as u8) as char
    } else {
        ((87 + d) as u8) as char
    }
}

/// Exec `hex_lower`.
pub fn to_hex(b: &[u8]) -> (s: String)
    ensures
        s@ == hex_lower(b@),
{
    let mut cs: Vec<char> = Vec::new();
    let mut i: usize = 0;
    while i < b.len()
        invariant
            i <= b.len(),
            cs@ == hex_lower(b@.take(i as int)),
        decreases b.len() - i,
    {
        assert(b@.take(i + 1).drop_last() =~= b@.take(i as int));
        cs.push(hex_char(b[i] / 16));
        cs.push(hex_char(b[i] % 16));
        i += 1;
        assert(cs@ =~= hex_lower(b@.take(i as int)));
    }
    assert(b@.take(b.len() as int) =~= b@);
    string_of(cs.as_slice())
}

/// The key that identifies one pushed attendance line: the SHA-256 of its
/// UTF-8 bytes, in lower-case hex.
pub open spec fn event_key_of(raw_line: Seq<char>) -> Seq<char> {
    hex_lower(sha256(vstd::utf8::encode_utf8(raw_line)))
}

pub fn compute_event_key(raw_line: &str) -> (r: String)
    ensures
        r@ == event_key_of(raw_line@),
{
    let digest = sha256_digest(raw_line.as_bytes());
    to_hex(digest.as_slice())
}

/// The bytes hashed to identify one push request: serial, NUL, query, NUL,
/// body.
pub open spec fn request_bytes(serial: Seq<char>, query: Seq<char>, body: Seq<u8>) -> Seq<u8> {
    vstd::utf8::encode_utf8(serial) + seq![0u8] + vstd::utf8::encode_utf8(query) + seq![0u8] + body
}

pub fn compute_request_hash(serial: &str, query: &str, body: &[u8]) -> (r: String)
    ensures
        r@ == hex_lower(sha256(request_bytes(serial@, query@, body@))),
{
    let mut data: Vec<u8> = Vec::new();
    crate::protocol::push_bytes(&mut data, serial.as_bytes());
    data.push(0u8);
    crate::protocol::push_bytes(&mut data, query.as_bytes());
    data.push(0u8);
    crate::protocol::push_bytes(&mut data, body);
    assert(data@ =~= request_bytes(serial@, query@, body@));
    let digest = sha256_digest(data.as_slice());
    to_hex(digest.as_slice())
}

// ── Line parsing ─────────────────────────────────────────────────────────────

/// The `k`-th field of a split line, or the empty text when there is none.
pub open spec fn field_or_empty(parts: Seq<Seq<char>>, k: int) -> Seq<char> {
    if 0 <= k < parts.len() {
        parts[k]
    } else {
        seq![]
    }
}

/// `s` without `p` in front, when it starts with `p`.
pub open spec fn strip_prefix_or_self(s: Seq<char>, p: Seq<char>) -> Seq<char> {
    if starts_with(s, p) {
        s.skip(p.len() as int)
    } else {
        s
    }
}

/// The fields an ADMS attendance line (`[PIN=]id<TAB>time<TAB>status<TAB>
/// verify<TAB>workcode<TAB>reserved`) holds, if it is one: a non-blank line
/// with at least an id and a time of 16 or more bytes that holds a `-`.
pub open spec fn attendance_fields(line: Seq<char>) -> Option<Seq<Seq<char>>> {
    let t = trim(line);
    if t.len() == 0 {
        None
    } else {
        let parts = split_on(strip_prefix_or_self(t, "PIN="@), '\t');
        if parts.len() < 2 || utf8_len(parts[1]) < 16 || !parts[1].contains('-') {
            None
        } else {
            Some(parts)
        }
    }
}

/// `parse_attendance_line` gave `a` for `line`.
pub open spec fn parsed_attendance(line: Seq<char>, a: SenseFaceAttendance) -> bool {
    attendance_fields(line) matches Some(parts) && {
        &&& a.employee_id@ == parts[0]
        &&& a.event_time@ == parts[1]
        &&& a.status@ == field_or_empty(parts, 2)
        &&& a.verify_mode@ == field_or_empty(parts, 3)
        &&& a.work_code@ == field_or_empty(parts, 4)
        &&& a.reserved@ == field_or_empty(parts, 5)
        &&& a.raw_line@ == trim(line)
        &&& a.event_key@ == event_key_of(trim(line))
    }
}

fn strip_prefix_chars(s: &[char], p: &str) -> (r: Vec<char>)
    ensures
        r@ == strip_prefix_or_self(s@, p@),
{
    if has_prefix_str(s, p) {
        let pv = chars_of(p);
        slice_chars(s, pv.len(), s.len())
    } else {
        slice_chars(s, 0, s.len())
    }
}

fn part_or_empty(parts: &Vec<Vec<char>>, k: usize) -> (r: String)
    ensures
        r@ == field_or_empty(parts@.map_values(|p: Vec<char>| p@), k as int),
{
    if k < parts.len() {
        string_of(parts[k].as_slice())
    } else {
        String::new()
    }
}

fn contains_char(s: &[char], c: char) -> (r: bool)
    ensures
        r == s@.contains(c),
{
    match find_char(s, c) {
        Some(i) => {
            assert(s@[i as int] == c);
            true
        },
        None => false,
    }
}

pub fn parse_attendance_line(line: &str) -> (r: Option<SenseFaceAttendance>)
    ensures
        match r {
            Some(a) => parsed_attendance(line@, a),
            None => attendance_fields(line@) is None,
        },
{
    let t = trim_str(line);
    let tc = chars_of(t.as_str());
    if tc.len() == 0 {
        return None;
    }
    let w = strip_prefix_chars(tc.as_slice(), "PIN=");
    let parts = split_chars(w.as_slice(), '\t');
    let ghost pv = parts@.map_values(|p: Vec<char>| p@);
    if parts.len() < 2 {
        return None;
    }
    assert(pv[1] == parts@[1]@);
    if byte_len_upto(parts[1].as_slice(), 16) < 16 || !contains_char(parts[1].as_slice(), '-') {
        return None;
    }
    assert(pv[0] == parts@[0]@);
    Some(
        SenseFaceAttendance {
            employee_id: string_of(parts[0].as_slice()),
            event_time: string_of(parts[1].as_slice()),
            status: part_or_empty(&parts, 2),
            verify_mode: part_or_empty(&parts, 3),
            work_code: part_or_empty(&parts, 4),
            reserved: part_or_empty(&parts, 5),
            raw_line: t.clone(),
            event_key: compute_event_key(t.as_str()),
        },
    )
}

/// The value of the last field from index 1 on that starts with `key`
/// (`Name=`, `Pri=`, `Card=`), or the empty text.
pub open spec fn last_keyed(parts: Seq<Seq<char>>, key: Seq<char>) -> Seq<char>
    decreases parts.len(),
{
    if parts.len() <= 1 {
        seq![]
    } else if starts_with(parts.last(), key) {
        parts.last().skip(key.len() as int)
    } else {
        last_keyed(parts.drop_last(), key)
    }
}

/// The tab-separated fields of an ADMS user line (`[USER ][PIN=]id<TAB>
/// Name=..<TAB>Pri=..<TAB>Card=..`), if it is not blank.
pub open spec fn user_fields(line: Seq<char>) -> Option<Seq<Seq<char>>> {
    let t = trim(line);
    if t.len() == 0 {
        None
    } else {
        Some(split_on(strip_prefix_or_self(strip_prefix_or_self(t, "USER "@), "PIN="@), '\t'))
    }
}

/// `parse_user_line` gave `u` for `line`.
pub open spec fn parsed_user(line: Seq<char>, u: SenseFaceUser) -> bool {
    user_fields(line) matches Some(parts) && {
        &&& u.employee_id@ == parts[0]
        &&& u.name@ == last_keyed(parts, "Name="@)
        &&& u.privilege@ == last_keyed(parts, "Pri="@)
        &&& u.card@ == last_keyed(parts, "Card="@)
        &&& u.raw_line@ == trim(line)
    }
}

pub proof fn lemma_split_nonempty(s: Seq<char>, c: char)
    ensures
        split_on(s, c).len() >= 1,
    decreases s.len(),
{
    match crate::text::first_index(s, c) {
        Some(i) => if 0 <= i < s.len() {
            lemma_split_nonempty(s.skip(i + 1), c);
        },
        None => {},
    }
}

pub fn parse_user_line(line: &str) -> (r: Option<SenseFaceUser>)
    ensures
        match r {
            Some(u) => parsed_user(line@, u),
            None => user_fields(line@) is None,
        },
{
    let t = trim_str(line);
    let tc = chars_of(t.as_str());
    if tc.len() == 0 {
        return None;
    }
    let w1 = strip_prefix_chars(tc.as_slice(), "USER ");
    let w2 = strip_prefix_chars(w1.as_slice(), "PIN=");
    let parts = split_chars(w2.as_slice(), '\t');
    let ghost pv = parts@.map_values(|p: Vec<char>| p@);
    proof {
        lemma_split_nonempty(w2@, '\t');
    }
    let mut name = String::new();
    let mut privilege = String::new();
    let mut card = String::new();
    let mut k: usize = 1;
    proof {
        reveal_strlit("");
        assert(pv.take(1).len() == 1);
    }
    while k < parts.len()
        invariant
            1 <= k <= parts.len(),
            pv == parts@.map_values(|p: Vec<char>| p@),
            name@ == last_keyed(pv.take(k as int), "Name="@),
            privilege@ == last_keyed(pv.take(k as int), "Pri="@),
            card@ == last_keyed(pv.take(k as int), "Card="@),
        decreases parts.len() - k,
    {
        let item = parts[k].as_slice();
        assert(pv.take(k + 1).drop_last() =~= pv.take(k as int));
        assert(pv.take(k + 1).last() == item@);
        if has_prefix_str(item, "Name=") {
            let v = chars_of("Name=");
            name = string_of(slice_chars(item, v.len(), item.len()).as_slice());
            proof {
                assert(!starts_with(item@, "Pri="@) && !starts_with(item@, "Card="@)) by {
                    reveal_strlit("Name=");
                    reveal_strlit("Pri=");
                    reveal_strlit("Card=");
                    assert(item@.take(5)[0] == 'N');
                }
            }
        } else if has_prefix_str(item, "Pri=") {
            let v = chars_of("Pri=");
            privilege = string_of(slice_chars(item, v.len(), item.len()).as_slice());
            proof {
                assert(!starts_with(item@, "Card="@)) by {
                    reveal_strlit("Pri=");
                    reveal_strlit("Card=");
                    assert(item@.take(4)[0] == 'P');
                }
            }
        } else if has_prefix_str(item, "Card=") {
            let v = chars_of("Card=");
            card = string_of(slice_chars(item, v.len(), item.len()).as_slice());
        }
        k += 1;
    }
    assert(pv.take(parts.len() as int) =~= pv);
    assert(pv[0] == parts@[0]@);
    Some(
        SenseFaceUser {
            employee_id: string_of(parts[0].as_slice()),
            name,
            privilege,
            card,
            raw_line: t.clone(),
        },
    )
}

/// HRMS vocabulary for an ADMS status: `0` or empty is a check-in.
pub open spec fn adms_event_type(status: Seq<char>) -> Seq<char> {
    if status == "0"@ || status == ""@ {
        "check_in"@
    } else {
        "check_out"@
    }
}

pub fn event_type_from_adms_status(status: &str) -> (r: &'static str)
    ensures
        r@ == adms_event_type(status@),
{
    let s = chars_of(status);
    if eq_str(s.as_slice(), "0") || eq_str(s.as_slice(), "") {
        "check_in"
    } else {
        "check_out"
    }
}

// ── Terminal timezones ───────────────────────────────────────────────────────

/// The fixed offset (seconds east of UTC) used for a timezone name or
/// abbreviation a terminal may be configured with.
pub open spec fn named_zone_offset(t: Seq<char>) -> Option<int> {
    if t == "Asia/Dhaka"@ || t == "BDT"@ {
        Some(21600)
    } else if t == "Asia/Kolkata"@ || t == "Asia/Calcutta"@ || t == "IST"@ {
        Some(19800)
    } else if t == "Asia/Kathmandu"@ || t == "Asia/Katmandu"@ || t == "NPT"@ {
        Some(20700)
    } else if t == "Asia/Dubai"@ || t == "GST"@ {
        Some(14400)
    } else if t == "Asia/Bangkok"@ || t == "Asia/Ho_Chi_Minh"@ || t == "ICT"@ {
        Some(25200)
    } else if t == "Asia/Singapore"@ || t == "Asia/Kuala_Lumpur"@ || t == "SGT"@ || t == "MYT"@ {
        Some(28800)
    } else if t == "Asia/Shanghai"@ || t == "Asia/Beijing"@ || t == "Asia/Hong_Kong"@ || t == "CST"@ {
        Some(28800)
    } else if t == "Asia/Tokyo"@ || t == "JST"@ {
        Some(32400)
    } else if t == "Asia/Seoul"@ || t == "KST"@ {
        Some(32400)
    } else if t == "Asia/Jakarta"@ || t == "WIB"@ {
        Some(25200)
    } else if t == "Asia/Manila"@ || t == "PHT"@ {
        Some(28800)
    } else if t == "Asia/Taipei"@ || t == "NST"@ {
        Some(28800)
    } else if t == "Asia/Riyadh"@ {
        Some(10800)
    } else if t == "Asia/Karachi"@ || t == "PKT"@ {
        Some(18000)
    } else if t == "Asia/Kabul"@ || t == "AFT"@ {
        Some(16200)
    } else if t == "Asia/Tehran"@ || t == "IRST"@ {
        Some(12600)
    } else if t == "Asia/Baghdad"@ {
        Some(10800)
    } else if t == "Asia/Yangon"@ || t == "MMT"@ {
        Some(23400)
    } else if t == "Europe/London"@ || t == "GMT"@ || t == "BST"@ {
        Some(0)
    } else if t == "Europe/Berlin"@ || t == "Europe/Paris"@ || t == "Europe/Madrid"@ || t == "CET"@ || t == "CEST"@ {
        Some(3600)
    } else if t == "Europe/Moscow"@ || t == "MSK"@ {
        Some(10800)
    } else if t == "America/New_York"@ || t == "EST"@ || t == "EDT"@ {
        Some(-18000)
    } else if t == "America/Chicago"@ || t == "CDT"@ {
        Some(-21600)
    } else if t == "America/Denver"@ || t == "MST"@ || t == "MDT"@ {
        Some(-25200)
    } else if t == "America/Los_Angeles"@ || t == "PST"@ || t == "PDT"@ {
        Some(-28800)
    } else if t == "America/Sao_Paulo"@ || t == "BRT"@ {
        Some(-10800)
    } else if t == "America/Mexico_City"@ || t == "Central Standard Time (Mexico)"@ {
        Some(-21600)
    } else if t == "Australia/Sydney"@ || t == "AEST"@ || t == "AEDT"@ {
        Some(36000)
    } else if t == "Australia/Perth"@ || t == "AWST"@ {
        Some(28800)
    } else if t == "Pacific/Auckland"@ || t == "NZST"@ || t == "NZDT"@ {
        Some(43200)
    } else if t == "Africa/Cairo"@ || t == "EET"@ {
        Some(7200)
    } else if t == "Africa/Lagos"@ || t == "WAT"@ {
        Some(3600)
    } else if t == "Africa/Johannesburg"@ || t == "SAST"@ {
        Some(7200)
    } else if t == "UTC"@ || t == "Z"@ || t == "Greenwich Mean Time"@ {
        Some(0)
    } else {
        None
    }
}

fn named_zone(t: &[char]) -> (r: Option<i32>)
    ensures
        match r {
            Some(o) => named_zone_offset(t@) == Some(o as int),
            None => named_zone_offset(t@) is None,
        },
{
    if eq_str(t, "Asia/Dhaka") || eq_str(t, "BDT") {
        Some(21600)
    } else if eq_str(t, "Asia/Kolkata") || eq_str(t, "Asia/Calcutta") || eq_str(t, "IST") {
        Some(19800)
    } else if eq_str(t, "Asia/Kathmandu") || eq_str(t, "Asia/Katmandu") || eq_str(t, "NPT") {
        Some(20700)
    } else if eq_str(t, "Asia/Dubai") || eq_str(t, "GST") {
        Some(14400)
    } else if eq_str(t, "Asia/Bangkok") || eq_str(t, "Asia/Ho_Chi_Minh") || eq_str(t, "ICT") {
        Some(25200)
    } else if eq_str(t, "Asia/Singapore") || eq_str(t, "Asia/Kuala_Lumpur") || eq_str(t, "SGT") || eq_str(t, "MYT") {
        Some(28800)
    } else if eq_str(t, "Asia/Shanghai") || eq_str(t, "Asia/Beijing") || eq_str(t, "Asia/Hong_Kong") || eq_str(t, "CST") {
        Some(28800)
    } else if eq_str(t, "Asia/Tokyo") || eq_str(t, "JST") {
        Some(32400)
    } else if eq_str(t, "Asia/Seoul") || eq_str(t, "KST") {
        Some(32400)
    } else if eq_str(t, "Asia/Jakarta") || eq_str(t, "WIB") {
        Some(25200)
    } else if eq_str(t, "Asia/Manila") || eq_str(t, "PHT") {
        Some(28800)
    } else if eq_str(t, "Asia/Taipei") || eq_str(t, "NST") {
        Some(28800)
    } else if eq_str(t, "Asia/Riyadh") {
        Some(10800)
    } else if eq_str(t, "Asia/Karachi") || eq_str(t, "PKT") {
        Some(18000)
    } else if eq_str(t, "Asia/Kabul") || eq_str(t, "AFT") {
        Some(16200)
    } else if eq_str(t, "Asia/Tehran") || eq_str(t, "IRST") {
        Some(12600)
    } else if eq_str(t, "Asia/Baghdad") {
        Some(10800)
    } else if eq_str(t, "Asia/Yangon") || eq_str(t, "MMT") {
        Some(23400)
    } else if eq_str(t, "Europe/London") || eq_str(t, "GMT") || eq_str(t, "BST") {
        Some(0)
    } else if eq_str(t, "Europe/Berlin") || eq_str(t, "Europe/Paris") || eq_str(t, "Europe/Madrid") || eq_str(t, "CET") || eq_str(t, "CEST") {
        Some(3600)
    } else if eq_str(t, "Europe/Moscow") || eq_str(t, "MSK") {
        Some(10800)
    } else if eq_str(t, "America/New_York") || eq_str(t, "EST") || eq_str(t, "EDT") {
        Some(-18000)
    } else if eq_str(t, "America/Chicago") || eq_str(t, "CDT") {
        Some(-21600)
    } else if eq_str(t, "America/Denver") || eq_str(t, "MST") || eq_str(t, "MDT") {
        Some(-25200)
    } else if eq_str(t, "America/Los_Angeles") || eq_str(t, "PST") || eq_str(t, "PDT") {
        Some(-28800)
    } else if eq_str(t, "America/Sao_Paulo") || eq_str(t, "BRT") {
        Some(-10800)
    } else if eq_str(t, "America/Mexico_City") || eq_str(t, "Central Standard Time (Mexico)") {
        Some(-21600)
    } else if eq_str(t, "Australia/Sydney") || eq_str(t, "AEST") || eq_str(t, "AEDT") {
        Some(36000)
    } else if eq_str(t, "Australia/Perth") || eq_str(t, "AWST") {
        Some(28800)
    } else if eq_str(t, "Pacific/Auckland") || eq_str(t, "NZST") || eq_str(t, "NZDT") {
        Some(43200)
    } else if eq_str(t, "Africa/Cairo") || eq_str(t, "EET") {
        Some(7200)
    } else if eq_str(t, "Africa/Lagos") || eq_str(t, "WAT") {
        Some(3600)
    } else if eq_str(t, "Africa/Johannesburg") || eq_str(t, "SAST") {
        Some(7200)
    } else if eq_str(t, "UTC") || eq_str(t, "Z") || eq_str(t, "Greenwich Mean Time") {
        Some(0)
    } else {
        None
    }
}

/// The offset a configured terminal timezone stands for: a fixed offset
/// form, else a known zone name or abbreviation.
pub open spec fn terminal_offset(tz: Seq<char>) -> Option<int> {
    let t = trim(tz);
    match utc_offset_of(t) {
        Some(o) => Some(o),
        None => named_zone_offset(t),
    }
}

pub fn senseface_timezone_offset(tz: &str) -> (r: Option<i32>)
    ensures
        match r {
            Some(o) => terminal_offset(tz@) == Some(o as int) && -86400 < o < 86400,
            None => terminal_offset(tz@) is None,
        },
{
    let t = trim_str(tz);
    proof {
        crate::domain::lemma_utc_offset_bounded(t@);
    }
    match parse_utc_offset(t.as_str()) {
        Some(o) => Some(o),
        None => {
            let tc = chars_of(t.as_str());
            named_zone(tc.as_slice())
        },
    }
}

// ── Pending records to events ────────────────────────────────────────────────

/// The offset-aware time of an ADMS `YYYY-MM-DD HH:MM:SS` wall-clock time.
pub open spec fn adms_timestamp(value: Seq<char>, offset_seconds: int) -> Option<Seq<char>> {
    let v = trim(value);
    if v.len() == 0 {
        None
    } else {
        naive_at_offset(v, "%Y-%m-%d %H:%M:%S"@, offset_seconds)
    }
}

/// The event one pending record becomes, if it has an employee id and a
/// readable time.
pub open spec fn pending_event_of(r: PendingForwardAttendance, offset_seconds: int) -> Option<EventView> {
    let id = trim(r.employee_id@);
    if id.len() == 0 {
        None
    } else {
        match adms_timestamp(r.event_time@, offset_seconds) {
            Some(t) => Some(
                EventView {
                    device_employee_id: id,
                    timestamp: t,
                    event_type: adms_event_type(r.status@),
                    verification_method: "senseface"@,
                },
            ),
            None => None,
        }
    }
}

/// A forwarded SenseFace record's event type follows its ADMS status only:
/// status "0" or empty is a check-in, anything else a check-out; two records
/// that differ only in their verify mode give the same event.
pub proof fn law_senseface_event_type_from_status(
    r: PendingForwardAttendance,
    r2: PendingForwardAttendance,
    offset_seconds: int,
)
    ensures
        pending_event_of(r, offset_seconds) matches Some(e) ==> {
            &&& (e.event_type == "check_in"@ <==> (r.status@ == "0"@ || r.status@ == ""@))
            &&& (e.event_type == "check_out"@ <==> !(r.status@ == "0"@ || r.status@ == ""@))
            &&& e.verification_method == "senseface"@
        },
        (r2.employee_id@ == r.employee_id@ && r2.event_time@ == r.event_time@ && r2.status@ == r.status@)
            ==> pending_event_of(r2, offset_seconds) == pending_event_of(r, offset_seconds),
{
    reveal_strlit("check_in");
    reveal_strlit("check_out");
    assert("check_in"@ != "check_out"@) by {
        assert("check_in"@[6] != "check_out"@[6]);
    }
}

/// The events of the pending records that map, in record order.
pub open spec fn pending_events_of(rs: Seq<PendingForwardAttendance>, offset_seconds: int) -> Seq<EventView>
    decreases rs.len(),
{
    if rs.len() == 0 {
        seq![]
    } else {
        let prev = pending_events_of(rs.drop_last(), offset_seconds);
        match pending_event_of(rs.last(), offset_seconds) {
            Some(e) => prev.push(e),
            None => prev,
        }
    }
}

fn parse_adms_timestamp(value: &str, offset_seconds: i32) -> (r: Option<String>)
    requires
        -86400 < offset_seconds < 86400,
    ensures
        match r {
            Some(t) => adms_timestamp(value@, offset_seconds as int) == Some(t@),
            None => adms_timestamp(value@, offset_seconds as int) is None,
        },
{
    let v = trim_str(value);
    if v.as_str().is_empty() {
        return None;
    }
    crate::domain::naive_at(v.as_str(), "%Y-%m-%d %H:%M:%S", offset_seconds)
}

fn pending_event(r: &PendingForwardAttendance, offset_seconds: i32) -> (e: Option<HrmsEvent>)
    requires
        -86400 < offset_seconds < 86400,
    ensures
        match e {
            Some(x) => pending_event_of(*r, offset_seconds as int) == Some(x@),
            None => pending_event_of(*r, offset_seconds as int) is None,
        },
{
    let id = trim_str(r.employee_id.as_str());
    if id.as_str().is_empty() {
        return None;
    }
    match parse_adms_timestamp(r.event_time.as_str(), offset_seconds) {
        Some(t) => Some(
            HrmsEvent {
                device_employee_id: id,
                timestamp: t,
                event_type: String::from_str(event_type_from_adms_status(r.status.as_str())),
                verification_method: String::from_str("senseface"),
            },
        ),
        None => None,
    }
}

/// Convert pending pushed records into chronologically sorted HRMS events,
/// read at the terminal's offset. The device code, key and organization are
/// carried by the caller with the events.
pub fn to_hrms_events_from_senseface(
    records: &[PendingForwardAttendance],
    offset_seconds: i32,
    device_code: &str,
    api_key: &str,
    organization_id: u64,
) -> (r: Vec<HrmsEvent>)
    requires
        -86400 < offset_seconds < 86400,
    ensures
        event_views(r@) == sort_by_time(pending_events_of(records@, offset_seconds as int)),
{
    let ghost rs = records@;
    let mut sorted: Vec<HrmsEvent> = Vec::new();
    let mut keys: Vec<Vec<char>> = Vec::new();
    let mut i: usize = 0;
    while i < records.len()
        invariant
            i <= records.len(),
            -86400 < offset_seconds < 86400,
            rs == records@,
            keys.len() == sorted.len(),
            forall|k: int| 0 <= k < sorted.len() ==> (#[trigger] keys@[k])@ == sorted@[k].timestamp@,
            event_views(sorted@) == sort_by_time(pending_events_of(rs.take(i as int), offset_seconds as int)),
        decreases records.len() - i,
    {
        let ghost before = pending_events_of(rs.take(i as int), offset_seconds as int);
        proof {
            assert(rs.take(i + 1).drop_last() =~= rs.take(i as int));
            assert(rs.take(i + 1).last() == records@[i as int]);
        }
        match pending_event(&records[i], offset_seconds) {
            Some(e) => {
                insert_sorted(&mut sorted, &mut keys, e);
                assert(before.push(e@).drop_last() =~= before);
            },
            None => {},
        }
        i += 1;
    }
    assert(rs.take(records.len() as int) =~= rs);
    sorted
}

} // verus!
