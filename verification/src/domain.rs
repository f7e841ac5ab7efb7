//! Core attendance and template types.

use base64::Engine;
use chrono::TimeZone;
use vstd::multiset::Multiset;
use vstd::prelude::*;

use crate::text::{
    byte_len_upto, find_char, first_index, int_text, lemma_prefix_bytes_len, parse_i32_chars,
    prefix_bytes, slice_chars, utf8_len, lemma_text_le_trans, chars_le, chars_of, eq_str, lower_chars, lower_seq, str_prefix_bytes, starts_with, text_le, trim, trim_str,
};

verus! {

/// Minimal raw attendance record pulled from a device.
#[derive(Debug, Clone, PartialEq, Eq)]
pub struct RawAttendance {
    /// Employee/user identifier stored on the device.
    pub user_id: String,
    /// Timestamp as reported by the device adapter.
    pub timestamp: String,
    /// ZKTeco punch code.
    pub punch: i64,
}

/// The model of a [`RawAttendance`].
pub struct AttendanceView {
    pub user_id: Seq<char>,
    pub timestamp: Seq<char>,
    pub punch: i64,
}

impl View for RawAttendance {
    type V = AttendanceView;

    open spec fn view(&self) -> AttendanceView {
        AttendanceView { user_id: self.user_id@, timestamp: self.timestamp@, punch: self.punch }
    }
}

/// A user record on the device.
#[derive(Debug, Clone, PartialEq, Eq)]
pub struct DeviceUser {
    pub uid: u32,
    pub user_id: String,
    pub name: String,
}

/// The model of a [`DeviceUser`].
pub struct UserView {
    pub uid: u32,
    pub user_id: Seq<char>,
    pub name: Seq<char>,
}

impl View for DeviceUser {
    type V = UserView;

    open spec fn view(&self) -> UserView {
        UserView { uid: self.uid, user_id: self.user_id@, name: self.name@ }
    }
}

/// A decoded fingerprint template joined with its device user.
#[derive(Debug, Clone, PartialEq, Eq)]
pub struct FingerTemplate {
    pub uid: u32,
    pub fid: u8,
    pub user_id: String,
    pub name: String,
    pub template: Vec<u8>,
}

/// The model of a [`FingerTemplate`].
pub struct TemplateView {
    pub uid: u32,
    pub fid: u8,
    pub user_id: Seq<char>,
    pub name: Seq<char>,
    pub template: Seq<u8>,
}

impl View for FingerTemplate {
    type V = TemplateView;

    open spec fn view(&self) -> TemplateView {
        TemplateView {
            uid: self.uid,
            fid: self.fid,
            user_id: self.user_id@,
            name: self.name@,
            template: self.template@,
        }
    }
}

/// Models of a sequence of attendance records.
pub open spec fn attendance_views(v: Seq<RawAttendance>) -> Seq<AttendanceView> {
    v.map_values(|r: RawAttendance| r@)
}

/// Models of a sequence of users.
pub open spec fn user_views(v: Seq<DeviceUser>) -> Seq<UserView> {
    v.map_values(|u: DeviceUser| u@)
}

/// Models of a sequence of templates.
pub open spec fn template_views(v: Seq<FingerTemplate>) -> Seq<TemplateView> {
    v.map_values(|t: FingerTemplate| t@)
}


// ── HRMS events ──────────────────────────────────────────────────────────────

/// Event shape expected by the HRMS webhook.
#[derive(Debug, Clone, PartialEq, Eq)]
pub struct HrmsEvent {
    /// Employee identifier in the HRMS payload.
    pub device_employee_id: String,
    /// Offset-aware ISO 8601 timestamp passed to HRMS.
    pub timestamp: String,
    /// Normalized attendance event type.
    pub event_type: String,
    /// Source marker that tells HRMS where the event came from.
    pub verification_method: String,
}

/// The model of an [`HrmsEvent`].
pub struct EventView {
    pub device_employee_id: Seq<char>,
    pub timestamp: Seq<char>,
    pub event_type: Seq<char>,
    pub verification_method: Seq<char>,
}

impl View for HrmsEvent {
    type V = EventView;

    open spec fn view(&self) -> EventView {
        EventView {
            device_employee_id: self.device_employee_id@,
            timestamp: self.timestamp@,
            event_type: self.event_type@,
            verification_method: self.verification_method@,
        }
    }
}

/// Models of a sequence of events.
pub open spec fn event_views(v: Seq<HrmsEvent>) -> Seq<EventView> {
    v.map_values(|e: HrmsEvent| e@)
}

/// A field-by-field copy of an event.
pub fn copy_event(e: &HrmsEvent) -> (r: HrmsEvent)
    ensures
        r@ == e@,
{
    HrmsEvent {
        device_employee_id: e.device_employee_id.clone(),
        timestamp: e.timestamp.clone(),
        event_type: e.event_type.clone(),
        verification_method: e.verification_method.clone(),
    }
}

/// Strategy used to derive HRMS check-in/check-out from device punches.
#[derive(Debug, Clone, Copy, PartialEq, Eq, Structural)]
pub enum EventTypeMode {
    /// Trust the punch code: 0/4 = check_in, everything else = check_out.
    PunchCode,
    /// Ignore punch direction and derive first-in/last-out per employee/day.
    FirstInLastOut,
}

impl Default for EventTypeMode {
    fn default() -> (r: Self)
        ensures
            r == EventTypeMode::PunchCode,
    {
        EventTypeMode::PunchCode
    }
}

/// The mode a configured text names, after trimming and ASCII lower-casing.
pub open spec fn event_type_mode_of(value: Seq<char>) -> Option<EventTypeMode> {
    let t = lower_seq(trim(value));
    if t == ""@ || t == "punchcode"@ || t == "punch_code"@ || t == "punch-code"@ {
        Some(EventTypeMode::PunchCode)
    } else if t == "firstinlastout"@ || t == "first_in_last_out"@ || t == "first-in-last-out"@ {
        Some(EventTypeMode::FirstInLastOut)
    } else {
        None
    }
}

impl EventTypeMode {
    pub fn parse(value: &str) -> (r: Option<Self>)
        ensures
            r == event_type_mode_of(value@),
    {
        let t = trim_str(value);
        let tc = chars_of(t.as_str());
        let l = lower_chars(tc.as_slice());
        let l = l.as_slice();
        if eq_str(l, "") || eq_str(l, "punchcode") || eq_str(l, "punch_code") || eq_str(
            l,
            "punch-code",
        ) {
            Some(EventTypeMode::PunchCode)
        } else if eq_str(l, "firstinlastout") || eq_str(l, "first_in_last_out") || eq_str(
            l,
            "first-in-last-out",
        ) {
            Some(EventTypeMode::FirstInLastOut)
        } else {
            None
        }
    }
}

/// HRMS vocabulary for a punch code: 0 and 4 are check-ins.
pub open spec fn punch_event_type(punch: i64) -> Seq<char> {
    if punch == 0 || punch == 4 {
        "check_in"@
    } else {
        "check_out"@
    }
}

/// Map ZKTeco punch codes into the HRMS event vocabulary.
pub fn event_type_from_punch(punch: i64) -> (r: &'static str)
    ensures
        r@ == punch_event_type(punch),
{
    if punch == 0 || punch == 4 {
        "check_in"
    } else {
        "check_out"
    }
}

/// In punch-code mode a record that maps to an event is a check-in exactly
/// when its punch code is 0 or 4, and a check-out otherwise; the event keeps
/// the record's trimmed user id.
pub proof fn law_punch_code_event_type(r: AttendanceView, offset_seconds: int)
    ensures
        event_of(r, offset_seconds) matches Some(e) ==> {
            &&& (e.event_type == "check_in"@ <==> (r.punch == 0 || r.punch == 4))
            &&& (e.event_type == "check_out"@ <==> !(r.punch == 0 || r.punch == 4))
            &&& e.device_employee_id == trim(r.user_id)
        },
{
    reveal_strlit("check_in");
    reveal_strlit("check_out");
    assert("check_in"@ != "check_out"@) by {
        assert("check_in"@[6] != "check_out"@[6]);
    }
}

// ── Device timestamps ────────────────────────────────────────────────────────

/// What chrono's `DateTime::parse_from_rfc3339` followed by `to_rfc3339`
/// makes of a text, if it parses.
pub uninterp spec fn rfc3339_normalized(value: Seq<char>) -> Option<Seq<char>>;

/// What chrono's `NaiveDateTime::parse_from_str(value, format)` followed by
/// reading the result as wall-clock time at a fixed offset (in seconds east of
/// UTC) and `to_rfc3339` makes of a text, if it parses.
pub uninterp spec fn naive_at_offset(
    value: Seq<char>,
    format: Seq<char>,
    offset_seconds: int,
) -> Option<Seq<char>>;

/// `chrono::DateTime::parse_from_rfc3339`, rendered back with `to_rfc3339`.
/// The contract names the result and claims nothing more of it.
#[verifier::external_body]
fn parse_rfc3339(value: &str) -> (r: Option<String>)
    ensures
        match r {
            Some(t) => rfc3339_normalized(value@) == Some(t@),
            None => rfc3339_normalized(value@) is None,
        },
{
    chrono::DateTime::parse_from_rfc3339(value).ok().map(|t| t.to_rfc3339())
}

/// `chrono::NaiveDateTime::parse_from_str`, localized at a fixed offset with
/// `FixedOffset::from_local_datetime` and rendered with `to_rfc3339`. The
/// offset must be one `FixedOffset::east_opt` accepts (under a day). The
/// contract names the result and claims nothing more of it.
#[verifier::external_body]
fn parse_naive_at_offset(value: &str, format: &str, offset_seconds: i32) -> (r: Option<String>)
    requires
        -86400 < offset_seconds < 86400,
    ensures
        match r {
            Some(t) => naive_at_offset(value@, format@, offset_seconds as int) == Some(t@),
            None => naive_at_offset(value@, format@, offset_seconds as int) is None,
        },
{
    let naive = chrono::NaiveDateTime::parse_from_str(value, format).ok()?;
    let offset = chrono::FixedOffset::east_opt(offset_seconds)?;
    offset.from_local_datetime(&naive).single().map(|t| t.to_rfc3339())
}

/// A naive wall-clock time in `format`, read at a fixed offset.
pub(crate) fn naive_at(value: &str, format: &str, offset_seconds: i32) -> (r: Option<String>)
    requires
        -86400 < offset_seconds < 86400,
    ensures
        match r {
            Some(t) => naive_at_offset(value@, format@, offset_seconds as int) == Some(t@),
            None => naive_at_offset(value@, format@, offset_seconds as int) is None,
        },
{
    parse_naive_at_offset(value, format, offset_seconds)
}

/// The naive layouts a device timestamp may use, tried in order.
pub open spec fn naive_layout(k: int) -> Seq<char> {
    if k == 0 {
        "%Y-%m-%dT%H:%M:%S%.f"@
    } else if k == 1 {
        "%Y-%m-%d %H:%M:%S%.f"@
    } else if k == 2 {
        "%Y-%m-%dT%H:%M:%S"@
    } else {
        "%Y-%m-%d %H:%M:%S"@
    }
}

/// The first of the naive layouts from `k` on that reads `value`.
pub open spec fn first_naive(value: Seq<char>, offset_seconds: int, k: nat) -> Option<Seq<char>>
    decreases 4 - k,
{
    if k >= 4 {
        None
    } else {
        match naive_at_offset(value, naive_layout(k as int), offset_seconds) {
            Some(t) => Some(t),
            None => first_naive(value, offset_seconds, k + 1),
        }
    }
}

/// The offset-aware text sent to HRMS for a device timestamp: RFC 3339 input
/// keeps its own offset; naive input is read as wall-clock time at the
/// device's offset.
pub open spec fn device_timestamp(value: Seq<char>, offset_seconds: int) -> Option<Seq<char>> {
    let v = trim(value);
    if v.len() == 0 {
        None
    } else if rfc3339_normalized(v) is Some {
        rfc3339_normalized(v)
    } else {
        first_naive(v, offset_seconds, 0)
    }
}

fn naive_layout_text(k: usize) -> (r: &'static str)
    requires
        k < 4,
    ensures
        r@ == naive_layout(k as int),
{
    if k == 0 {
        "%Y-%m-%dT%H:%M:%S%.f"
    } else if k == 1 {
        "%Y-%m-%d %H:%M:%S%.f"
    } else if k == 2 {
        "%Y-%m-%dT%H:%M:%S"
    } else {
        "%Y-%m-%d %H:%M:%S"
    }
}

/// Parse a device timestamp into the offset-aware text sent to HRMS.
pub fn parse_timestamp(value: &str, offset_seconds: i32) -> (r: Option<String>)
    requires
        -86400 < offset_seconds < 86400,
    ensures
        match r {
            Some(t) => device_timestamp(value@, offset_seconds as int) == Some(t@),
            None => device_timestamp(value@, offset_seconds as int) is None,
        },
{
    let v = trim_str(value);
    if v.as_str().is_empty() {
        return None;
    }
    match parse_rfc3339(v.as_str()) {
        Some(t) => {
            return Some(t);
        },
        None => {},
    }
    let mut k: usize = 0;
    while k < 4
        invariant
            k <= 4,
            -86400 < offset_seconds < 86400,
            v@ == trim(value@),
            v@.len() > 0,
            rfc3339_normalized(v@) is None,
            first_naive(v@, offset_seconds as int, 0) == first_naive(
                v@,
                offset_seconds as int,
                k as nat,
            ),
        decreases 4 - k,
    {
        match parse_naive_at_offset(v.as_str(), naive_layout_text(k), offset_seconds) {
            Some(t) => {
                return Some(t);
            },
            None => {},
        }
        k += 1;
    }
    None
}

// ── Fixed UTC offsets ────────────────────────────────────────────────────────

/// The hours and minutes texts of an offset after its sign: `HH:MM`, `HH`
/// (at most two bytes, minutes "0"), or `HHMM` (exactly four bytes).
pub open spec fn offset_fields(rest: Seq<char>) -> Option<(Seq<char>, Seq<char>)> {
    match first_index(rest, ':') {
        Some(i) => Some((rest.take(i), rest.skip(i + 1))),
        None => if utf8_len(rest) <= 2 {
            Some((rest, "0"@))
        } else if utf8_len(rest) == 4 {
            match str_prefix_bytes(rest, 2) {
                Some(h) => Some((h, rest.skip(h.len() as int))),
                None => None,
            }
        } else {
            None
        },
    }
}

/// A configured fixed offset in seconds east of UTC: empty, `UTC` or `Z`
/// (any case) is zero; otherwise a sign and `HH`, `HHMM` or `HH:MM` with
/// hours 0..=23 and minutes 0..=59.
pub open spec fn utc_offset_of(value: Seq<char>) -> Option<int> {
    let t = trim(value);
    if t.len() == 0 || lower_seq(t) == "utc"@ || lower_seq(t) == "z"@ {
        Some(0)
    } else if t[0] != '+' && t[0] != '-' {
        None
    } else {
        match offset_fields(t.drop_first()) {
            Some((h, m)) => match (int_text(h), int_text(m)) {
                (Some(hours), Some(minutes)) => if 0 <= hours <= 23 && 0 <= minutes <= 59 {
                    if t[0] == '+' {
                        Some(hours * 3600 + minutes * 60)
                    } else {
                        Some(-(hours * 3600 + minutes * 60))
                    }
                } else {
                    None
                },
                _ => None,
            },
            None => None,
        }
    }
}

pub proof fn lemma_utc_offset_bounded(value: Seq<char>)
    ensures
        utc_offset_of(value) matches Some(o) ==> -86400 < o < 86400,
{
    let t = trim(value);
    if !(t.len() == 0 || lower_seq(t) == "utc"@ || lower_seq(t) == "z"@) && (t[0] == '+' || t[0]
        == '-') {
        match offset_fields(t.drop_first()) {
            Some((h, m)) => match (int_text(h), int_text(m)) {
                (Some(hours), Some(minutes)) => {
                    if 0 <= hours <= 23 && 0 <= minutes <= 59 {
                        assert(0 <= hours * 3600 + minutes * 60 < 86400);
                    }
                },
                _ => {},
            },
            None => {},
        }
    }
}

/// The offset used when no timezone is configured: UTC.
pub fn default_utc_offset() -> (r: i32)
    ensures
        r == 0,
{
    0
}

/// Whether `chrono_tz` knows the zone name (`Tz: FromStr` succeeds on it;
/// the crate's built-in table decides, so it depends on the name alone).
pub uninterp spec fn iana_zone_known(name: Seq<char>) -> bool;

/// The latest instant, in seconds since the epoch, at which a zone's offset
/// is looked up (early in the year 5138); later clock readings are taken as
/// this one.
pub const ZONE_CLOCK_LIMIT: i64 = 100_000_000_000;

/// The wall clock in whole seconds since the epoch:
/// `SystemTime::now().duration_since(UNIX_EPOCH)` and `Duration::as_secs`
/// (0 when the clock reads before the epoch, `i64::MAX` past it). The reading
/// changes from call to call; nothing is claimed of it.
#[verifier::external_body]
fn clock_unix_seconds() -> (r: i64) {
    match std::time::SystemTime::now().duration_since(std::time::UNIX_EPOCH) {
        Ok(d) => i64::try_from(d.as_secs()).unwrap_or(i64::MAX),
        Err(_) => 0,
    }
}

/// The offset a known zone has at an instant: `chrono_tz::Tz: FromStr`,
/// `DateTime::from_timestamp(secs, 0)` (`None` only out of chrono's range,
/// which lies beyond the years 0 to 5138), `with_timezone`, `Offset::fix` and
/// `FixedOffset::local_minus_utc`, in seconds east. The value depends on
/// the zone's rules at that date (daylight saving), so the contract claims
/// only what every `FixedOffset` satisfies: it lies strictly within one day.
#[verifier::external_body]
fn zone_offset_at(name: &str, unix_secs: i64) -> (r: Option<i32>)
    ensures
        r is Some ==> iana_zone_known(name@),
        iana_zone_known(name@) && 0 <= unix_secs <= ZONE_CLOCK_LIMIT ==> r is Some,
        r matches Some(o) ==> -86400 < o < 86400,
{
    let tz = name.parse::<chrono_tz::Tz>().ok()?;
    let at = chrono::DateTime::from_timestamp(unix_secs, 0)?;
    Some(chrono::Offset::fix(at.with_timezone(&tz).offset()).local_minus_utc())
}

/// The offset an IANA zone name (such as `Asia/Dhaka`) has today, in seconds
/// east of UTC; `None` exactly when the trimmed name is not a known zone.
pub fn resolve_iana_timezone_offset(name: &str) -> (r: Option<i32>)
    ensures
        r is Some <==> iana_zone_known(trim(name@)),
        r matches Some(o) ==> -86400 < o < 86400,
{
    let t = trim_str(name);
    let clock = clock_unix_seconds();
    let now = if clock < 0 {
        0
    } else if clock > ZONE_CLOCK_LIMIT {
        ZONE_CLOCK_LIMIT
    } else {
        clock
    };
    zone_offset_at(t.as_str(), now)
}

/// The offset of a configured device timezone: a fixed offset (`+06:00`,
/// `UTC`) as written, else an IANA zone's offset today.
pub fn resolve_device_timezone_offset(value: &str) -> (r: Option<i32>)
    ensures
        utc_offset_of(value@) matches Some(o) ==> r == Some(o as i32),
        utc_offset_of(value@) is None ==> (r is Some <==> iana_zone_known(trim(value@))),
        r matches Some(o) ==> -86400 < o < 86400,
{
    proof {
        lemma_utc_offset_bounded(value@);
    }
    match parse_utc_offset(value) {
        Some(o) => Some(o),
        None => resolve_iana_timezone_offset(value),
    }
}

/// Parse a configured device timezone string into a fixed offset, in seconds
/// east of UTC. `None` when the text is not one of the accepted forms.
pub fn parse_utc_offset(value: &str) -> (r: Option<i32>)
    ensures
        match r {
            Some(o) => utc_offset_of(value@) == Some(o as int),
            None => utc_offset_of(value@) is None,
        },
{
    let t = trim_str(value);
    let tc = chars_of(t.as_str());
    let l = lower_chars(tc.as_slice());
    if tc.len() == 0 || eq_str(l.as_slice(), "utc") || eq_str(l.as_slice(), "z") {
        return Some(0);
    }
    if tc[0] != '+' && tc[0] != '-' {
        return None;
    }
    let rest = slice_chars(tc.as_slice(), 1, tc.len());
    assert(rest@ =~= tc@.drop_first());
    let (h, m) = match find_char(rest.as_slice(), ':') {
        Some(i) => {
            let h = slice_chars(rest.as_slice(), 0, i);
            let m = slice_chars(rest.as_slice(), i + 1, rest.len());
            assert(h@ =~= rest@.take(i as int));
            assert(m@ =~= rest@.skip(i + 1));
            (h, m)
        },
        None => {
            let n = byte_len_upto(rest.as_slice(), 4);
            if n <= 2 {
                let h = slice_chars(rest.as_slice(), 0, rest.len());
                assert(h@ =~= rest@);
                (h, chars_of("0"))
            } else if n == 4 {
                match prefix_bytes(rest.as_slice(), 2) {
                    Some(h) => {
                        proof {
                            lemma_prefix_bytes_len(rest@, 2);
                        }
                        let m = slice_chars(rest.as_slice(), h.len(), rest.len());
                        assert(m@ =~= rest@.skip(h@.len() as int));
                        (h, m)
                    },
                    None => {
                        return None;
                    },
                }
            } else {
                return None;
            }
        },
    };
    let hours = match parse_i32_chars(h.as_slice()) {
        Some(v) => v,
        None => {
            return None;
        },
    };
    let minutes = match parse_i32_chars(m.as_slice()) {
        Some(v) => v,
        None => {
            return None;
        },
    };
    if hours < 0 || hours > 23 || minutes < 0 || minutes > 59 {
        return None;
    }
    let magnitude = hours * 3600 + minutes * 60;
    if tc[0] == '+' {
        Some(magnitude)
    } else {
        Some(-magnitude)
    }
}

// ── Attendance to events ─────────────────────────────────────────────────────

/// The event one attendance record becomes, if it has an employee id and a
/// readable timestamp.
pub open spec fn event_of(r: AttendanceView, offset_seconds: int) -> Option<EventView> {
    let id = trim(r.user_id);
    if id.len() == 0 {
        None
    } else {
        match device_timestamp(r.timestamp, offset_seconds) {
            Some(t) => Some(
                EventView {
                    device_employee_id: id,
                    timestamp: t,
                    event_type: punch_event_type(r.punch),
                    verification_method: "fingerbridge"@,
                },
            ),
            None => None,
        }
    }
}

/// The events of the records that map, in record order.
pub open spec fn events_of(rs: Seq<AttendanceView>, offset_seconds: int) -> Seq<EventView>
    decreases rs.len(),
{
    if rs.len() == 0 {
        seq![]
    } else {
        let prev = events_of(rs.drop_last(), offset_seconds);
        match event_of(rs.last(), offset_seconds) {
            Some(e) => prev.push(e),
            None => prev,
        }
    }
}

/// `e` inserted into `s` after every event whose timestamp is not later.
pub open spec fn insert_by_time(s: Seq<EventView>, e: EventView) -> Seq<EventView>
    decreases s.len(),
{
    if s.len() == 0 {
        seq![e]
    } else if text_le(s.last().timestamp, e.timestamp) {
        s.push(e)
    } else {
        insert_by_time(s.drop_last(), e).push(s.last())
    }
}

/// Stable sort by timestamp text (insertion sort).
pub open spec fn sort_by_time(s: Seq<EventView>) -> Seq<EventView>
    decreases s.len(),
{
    if s.len() == 0 {
        s
    } else {
        insert_by_time(sort_by_time(s.drop_last()), s.last())
    }
}

/// The first ten bytes of a text, when they end on a character boundary
/// (`str::get(..10)`), else the empty text.
#[verifier::opaque]
pub open spec fn date_key(timestamp: Seq<char>) -> Seq<char> {
    match str_prefix_bytes(timestamp, 10) {
        Some(p) => p,
        None => ""@,
    }
}

/// Whether an earlier event (before `i`) has the same employee and day.
pub open spec fn seen_before(s: Seq<EventView>, i: int) -> bool {
    exists|j: int|
        0 <= j < i && #[trigger] s[j].device_employee_id == s[i].device_employee_id && date_key(
            s[j].timestamp,
        ) == date_key(s[i].timestamp)
}

/// First-in-last-out typing: the first event of an employee on a day is a
/// check-in, every later one a check-out.
pub open spec fn first_in_last_out(s: Seq<EventView>) -> Seq<EventView> {
    Seq::new(
        s.len(),
        |i: int|
            EventView {
                event_type: if seen_before(s, i) {
                    "check_out"@
                } else {
                    "check_in"@
                },
                ..s[i]
            },
    )
}

/// The HRMS events for a device's records.
pub open spec fn hrms_events(
    rs: Seq<AttendanceView>,
    offset_seconds: int,
    mode: EventTypeMode,
) -> Seq<EventView> {
    let sorted = sort_by_time(events_of(rs, offset_seconds));
    match mode {
        EventTypeMode::PunchCode => sorted,
        EventTypeMode::FirstInLastOut => first_in_last_out(sorted),
    }
}

fn to_hrms_event(record: &RawAttendance, offset_seconds: i32) -> (r: Option<HrmsEvent>)
    requires
        -86400 < offset_seconds < 86400,
    ensures
        match r {
            Some(e) => event_of(record@, offset_seconds as int) == Some(e@),
            None => event_of(record@, offset_seconds as int) is None,
        },
{
    let id = trim_str(record.user_id.as_str());
    if id.as_str().is_empty() {
        return None;
    }
    match parse_timestamp(record.timestamp.as_str(), offset_seconds) {
        Some(t) => Some(
            HrmsEvent {
                device_employee_id: id,
                timestamp: t,
                event_type: String::from_str(event_type_from_punch(record.punch)),
                verification_method: String::from_str("fingerbridge"),
            },
        ),
        None => None,
    }
}

proof fn lemma_insert_at(s: Seq<EventView>, e: EventView, j: int)
    requires
        0 <= j <= s.len(),
        forall|k: int| j <= k < s.len() ==> !text_le(#[trigger] s[k].timestamp, e.timestamp),
        j == 0 || text_le(s[j - 1].timestamp, e.timestamp),
    ensures
        insert_by_time(s, e) == s.insert(j, e),
    decreases s.len(),
{
    if s.len() == 0 {
        assert(s.insert(j, e) =~= seq![e]);
    } else if j == s.len() {
        assert(s.insert(j, e) =~= s.push(e));
    } else {
        let t = s.drop_last();
        assert(!text_le(s[s.len() - 1].timestamp, e.timestamp));
        assert forall|k: int| j <= k < t.len() implies !text_le(#[trigger] t[k].timestamp, e.timestamp) by {
            assert(t[k] == s[k]);
        }
        lemma_insert_at(t, e, j);
        assert(t.insert(j, e).push(s.last()) =~= s.insert(j, e));
    }
}

/// Inserts `e` into the timestamp-sorted `out`, after every event whose
/// timestamp is not later (keeps equal timestamps in arrival order).
pub(crate) fn insert_sorted(out: &mut Vec<HrmsEvent>, keys: &mut Vec<Vec<char>>, e: HrmsEvent)
    requires
        old(keys).len() == old(out).len(),
        forall|k: int| 0 <= k < old(out).len() ==> (#[trigger] old(keys)@[k])@ == old(out)@[k].timestamp@,
    ensures
        final(keys).len() == final(out).len(),
        forall|k: int| 0 <= k < final(out).len() ==> (#[trigger] final(keys)@[k])@ == final(out)@[k].timestamp@,
        event_views(final(out)@) == insert_by_time(event_views(old(out)@), e@),
{
    let key = chars_of(e.timestamp.as_str());
    let mut j = out.len();
    while j > 0 && !chars_le(keys[j - 1].as_slice(), key.as_slice())
        invariant
            j <= out.len(),
            keys.len() == out.len(),
            out@ == old(out)@,
            keys@ == old(keys)@,
            key@ == e.timestamp@,
            forall|k: int| 0 <= k < out.len() ==> (#[trigger] keys@[k])@ == out@[k].timestamp@,
            forall|k: int| j <= k < out.len() ==> !text_le(#[trigger] out@[k].timestamp@, e.timestamp@),
        decreases j,
    {
        j -= 1;
    }
    let ghost s = event_views(out@);
    proof {
        assert forall|k: int| j <= k < s.len() implies !text_le(#[trigger] s[k].timestamp, e@.timestamp) by {
            assert(s[k] == out@[k]@);
        }
        if j > 0 {
            assert(s[j - 1] == out@[j - 1]@);
        }
        lemma_insert_at(s, e@, j as int);
    }
    let ghost ev = e@;
    out.insert(j, e);
    keys.insert(j, key);
    proof {
        assert(event_views(out@) =~= s.insert(j as int, ev));
        assert forall|k: int| 0 <= k < out.len() implies (#[trigger] keys@[k])@ == out@[k].timestamp@ by {
            if k < j {
            } else if k == j {
            } else {
                assert(keys@[k] == old(keys)@[k - 1]);
                assert(out@[k] == old(out)@[k - 1]);
            }
        }
    }
}

/// `date_key` of a timestamp.
fn date_key_of(timestamp: &str) -> (r: Vec<char>)
    ensures
        r@ == date_key(timestamp@),
{
    reveal(date_key);
    let cs = chars_of(timestamp);
    match crate::text::prefix_bytes(cs.as_slice(), 10) {
        Some(p) => p,
        None => {
            assert(""@ =~= Seq::<char>::empty()) by {
                reveal_strlit("");
            }
            Vec::new()
        },
    }
}

/// Whether some key before `i` equals key `i`.
fn key_seen_before(ids: &Vec<Vec<char>>, days: &Vec<Vec<char>>, i: usize) -> (r: bool)
    requires
        i < ids.len() == days.len(),
    ensures
        r == exists|j: int|
            0 <= j < i && (#[trigger] ids@[j])@ == ids@[i as int]@ && days@[j]@ == days@[i as int]@,
{
    let mut j: usize = 0;
    while j < i
        invariant
            j <= i < ids.len() == days.len(),
            forall|m: int|
                0 <= m < j ==> !((#[trigger] ids@[m])@ == ids@[i as int]@ && days@[m]@ == days@[i as int]@),
        decreases i - j,
    {
        if crate::text::chars_eq(ids[j].as_slice(), ids[i].as_slice()) && crate::text::chars_eq(
            days[j].as_slice(),
            days[i].as_slice(),
        ) {
            return true;
        }
        j += 1;
    }
    false
}

/// The employee id of every event, as characters.
fn employee_ids(events: &Vec<HrmsEvent>) -> (r: Vec<Vec<char>>)
    ensures
        r.len() == events.len(),
        forall|k: int| 0 <= k < events.len() ==> (#[trigger] r@[k])@ == events@[k].device_employee_id@,
{
    let mut ids: Vec<Vec<char>> = Vec::new();
    let mut i: usize = 0;
    while i < events.len()
        invariant
            i <= events.len(),
            ids.len() == i,
            forall|k: int| 0 <= k < i ==> (#[trigger] ids@[k])@ == events@[k].device_employee_id@,
        decreases events.len() - i,
    {
        let id = chars_of(events[i].device_employee_id.as_str());
        ids.push(id);
        i += 1;
    }
    ids
}

/// The `date_key` of every event.
fn day_keys(events: &Vec<HrmsEvent>) -> (r: Vec<Vec<char>>)
    ensures
        r.len() == events.len(),
        forall|k: int| 0 <= k < events.len() ==> (#[trigger] r@[k])@ == date_key(events@[k].timestamp@),
{
    let mut days: Vec<Vec<char>> = Vec::new();
    let mut i: usize = 0;
    while i < events.len()
        invariant
            i <= events.len(),
            days.len() == i,
            forall|k: int| 0 <= k < i ==> (#[trigger] days@[k])@ == date_key(events@[k].timestamp@),
        decreases events.len() - i,
    {
        let day = date_key_of(events[i].timestamp.as_str());
        days.push(day);
        i += 1;
    }
    days
}

fn apply_first_in_last_out(events: Vec<HrmsEvent>) -> (r: Vec<HrmsEvent>)
    ensures
        event_views(r@) == first_in_last_out(event_views(events@)),
{
    let ghost s = event_views(events@);
    let ids = employee_ids(&events);
    let days = day_keys(&events);
    assert forall|k: int|
        0 <= k < events.len() implies (#[trigger] ids@[k])@ == s[k].device_employee_id
            && days@[k]@ == date_key(s[k].timestamp) by {
        assert(s[k] == events@[k]@);
        assert(days@[k]@ == date_key(events@[k].timestamp@));
    }
    let mut out: Vec<HrmsEvent> = Vec::new();
    let mut i: usize = 0;
    while i < events.len()
        invariant
            i <= events.len(),
            s == event_views(events@),
            ids.len() == events.len(),
            days.len() == events.len(),
            forall|k: int|
                0 <= k < events.len() ==> (#[trigger] ids@[k])@ == s[k].device_employee_id
                    && days@[k]@ == date_key(s[k].timestamp),
            out.len() == i,
            forall|k: int| 0 <= k < i ==> (#[trigger] event_views(out@)[k]) == first_in_last_out(s)[k],
        decreases events.len() - i,
    {
        let before = key_seen_before(&ids, &days, i);
        proof {
            assert(s[i as int] == events@[i as int]@);
            if before {
                let j = choose|j: int|
                    0 <= j < i && (#[trigger] ids@[j])@ == ids@[i as int]@ && days@[j]@ == days@[i as int]@;
                assert(s[j].device_employee_id == s[i as int].device_employee_id);
                assert(seen_before(s, i as int));
            } else {
                if seen_before(s, i as int) {
                    let j = choose|j: int|
                        0 <= j < i && #[trigger] s[j].device_employee_id == s[i as int].device_employee_id
                            && date_key(s[j].timestamp) == date_key(s[i as int].timestamp);
                    assert(ids@[j]@ == ids@[i as int]@);
                }
            }
        }
        let e = &events[i];
        let kind = if before {
            String::from_str("check_out")
        } else {
            String::from_str("check_in")
        };
        let typed = HrmsEvent {
            device_employee_id: e.device_employee_id.clone(),
            timestamp: e.timestamp.clone(),
            event_type: kind,
            verification_method: e.verification_method.clone(),
        };
        let ghost prev_out = out@;
        out.push(typed);
        proof {
            assert(event_views(out@) =~= event_views(prev_out).push(typed@));
            assert(event_views(out@)[i as int] == first_in_last_out(s)[i as int]);
            assert forall|k: int| 0 <= k < i + 1 implies (#[trigger] event_views(out@)[k])
                == first_in_last_out(s)[k] by {
                if k < i {
                    assert(event_views(out@)[k] == event_views(prev_out)[k]);
                }
            }
        }
        i += 1;
    }
    assert(event_views(out@) =~= first_in_last_out(s));
    out
}

/// Convert raw device records into chronologically sorted HRMS events, read
/// at the device's offset (seconds east of UTC).
pub fn to_hrms_events(records: &[RawAttendance], offset_seconds: i32, mode: EventTypeMode) -> (r:
    Vec<HrmsEvent>)
    requires
        -86400 < offset_seconds < 86400,
    ensures
        event_views(r@) == hrms_events(attendance_views(records@), offset_seconds as int, mode),
{
    let ghost rs = attendance_views(records@);
    let mut sorted: Vec<HrmsEvent> = Vec::new();
    let mut keys: Vec<Vec<char>> = Vec::new();
    let mut i: usize = 0;
    while i < records.len()
        invariant
            i <= records.len(),
            -86400 < offset_seconds < 86400,
            rs == attendance_views(records@),
            keys.len() == sorted.len(),
            forall|k: int| 0 <= k < sorted.len() ==> (#[trigger] keys@[k])@ == sorted@[k].timestamp@,
            event_views(sorted@) == sort_by_time(events_of(rs.take(i as int), offset_seconds as int)),
        decreases records.len() - i,
    {
        let ghost before = events_of(rs.take(i as int), offset_seconds as int);
        proof {
            assert(rs.take(i + 1).drop_last() =~= rs.take(i as int));
            assert(rs.take(i + 1).last() == records@[i as int]@);
        }
        match to_hrms_event(&records[i], offset_seconds) {
            Some(e) => {
                insert_sorted(&mut sorted, &mut keys, e);
                assert(events_of(rs.take(i + 1), offset_seconds as int) == before.push(e@));
                assert(before.push(e@).drop_last() =~= before);
            },
            None => {},
        }
        i += 1;
    }
    assert(rs.take(records.len() as int) =~= rs);
    match mode {
        EventTypeMode::PunchCode => sorted,
        EventTypeMode::FirstInLastOut => apply_first_in_last_out(sorted),
    }
}

/// Timestamps never decrease along `s`.
pub open spec fn sorted_by_time(s: Seq<EventView>) -> bool {
    forall|i: int, j: int| 0 <= i < j < s.len() ==> text_le(#[trigger] s[i].timestamp, #[trigger] s[j].timestamp)
}

proof fn lemma_insert_bounded(t: Seq<EventView>, e: EventView, b: Seq<char>)
    requires
        forall|k: int| 0 <= k < t.len() ==> text_le(#[trigger] t[k].timestamp, b),
        text_le(e.timestamp, b),
    ensures
        forall|k: int| 0 <= k < insert_by_time(t, e).len() ==> text_le(#[trigger] insert_by_time(t, e)[k].timestamp, b),
        insert_by_time(t, e).len() == t.len() + 1,
    decreases t.len(),
{
    if t.len() > 0 && !text_le(t.last().timestamp, e.timestamp) {
        lemma_insert_bounded(t.drop_last(), e, b);
        let r = insert_by_time(t.drop_last(), e);
        assert forall|k: int| 0 <= k < r.push(t.last()).len() implies text_le(#[trigger] r.push(t.last())[k].timestamp, b) by {
            if k < r.len() {
                assert(r.push(t.last())[k] == r[k]);
            }
        }
    }
}

proof fn lemma_insert_sorted(s: Seq<EventView>, e: EventView)
    requires
        sorted_by_time(s),
    ensures
        sorted_by_time(insert_by_time(s, e)),
        insert_by_time(s, e).len() == s.len() + 1,
        insert_by_time(s, e).to_multiset() == s.to_multiset().insert(e),
    decreases s.len(),
{
    broadcast use vstd::seq_lib::to_multiset_build;

    if s.len() == 0 {
        assert(seq![e] =~= s.push(e));
        assert(s.to_multiset() =~= Multiset::<EventView>::empty()) by {
            broadcast use vstd::seq_lib::group_to_multiset_ensures;
            broadcast use vstd::multiset::group_multiset_axioms;
        }
    } else if text_le(s.last().timestamp, e.timestamp) {
        let r = s.push(e);
        assert forall|i: int, j: int| 0 <= i < j < r.len() implies text_le(#[trigger] r[i].timestamp, #[trigger] r[j].timestamp) by {
            if j == s.len() {
                if i < s.len() - 1 {
                    lemma_text_le_trans(s[i].timestamp, s.last().timestamp, e.timestamp);
                }
            }
        }
    } else {
        let t = s.drop_last();
        assert(sorted_by_time(t)) by {
            assert forall|i: int, j: int| 0 <= i < j < t.len() implies text_le(#[trigger] t[i].timestamp, #[trigger] t[j].timestamp) by {
                assert(t[i] == s[i] && t[j] == s[j]);
            }
        }
        lemma_insert_sorted(t, e);
        let r = insert_by_time(t, e);
        crate::text::lemma_text_le_total(s.last().timestamp, e.timestamp);
        assert forall|k: int| 0 <= k < t.len() implies text_le(#[trigger] t[k].timestamp, s.last().timestamp) by {
            assert(t[k] == s[k]);
        }
        lemma_insert_bounded(t, e, s.last().timestamp);
        let q = r.push(s.last());
        assert forall|i: int, j: int| 0 <= i < j < q.len() implies text_le(#[trigger] q[i].timestamp, #[trigger] q[j].timestamp) by {
            if j == r.len() {
                assert(q[i] == r[i]);
            } else {
                assert(q[i] == r[i] && q[j] == r[j]);
            }
        }
        assert(s.drop_last().push(s.last()) =~= s);
        assert(q.to_multiset() =~= s.to_multiset().insert(e)) by {
            broadcast use vstd::multiset::group_multiset_axioms;
        }
    }
}

proof fn lemma_sort_sorted(s: Seq<EventView>)
    ensures
        sorted_by_time(sort_by_time(s)),
        sort_by_time(s).to_multiset() == s.to_multiset(),
    decreases s.len(),
{
    broadcast use vstd::seq_lib::to_multiset_build;

    if s.len() > 0 {
        lemma_sort_sorted(s.drop_last());
        lemma_insert_sorted(sort_by_time(s.drop_last()), s.last());
        assert(s.drop_last().push(s.last()) =~= s);
    }
}

/// The events sent to HRMS are in chronological (timestamp-text) order, in
/// either event-type mode.
pub proof fn law_hrms_events_sorted(rs: Seq<AttendanceView>, offset_seconds: int, mode: EventTypeMode)
    ensures
        sorted_by_time(hrms_events(rs, offset_seconds, mode)),
{
    lemma_sort_sorted(events_of(rs, offset_seconds));
    let sorted = sort_by_time(events_of(rs, offset_seconds));
    let out = hrms_events(rs, offset_seconds, mode);
    assert forall|i: int, j: int| 0 <= i < j < out.len() implies text_le(#[trigger] out[i].timestamp, #[trigger] out[j].timestamp) by {
        assert(out[i].timestamp == sorted[i].timestamp && out[j].timestamp == sorted[j].timestamp);
    }
}

/// Sorting loses and invents no event: in punch-code mode the events sent are
/// exactly the mapped records, reordered.
pub proof fn law_hrms_events_permutation(rs: Seq<AttendanceView>, offset_seconds: int)
    ensures
        hrms_events(rs, offset_seconds, EventTypeMode::PunchCode).to_multiset() == events_of(
            rs,
            offset_seconds,
        ).to_multiset(),
{
    lemma_sort_sorted(events_of(rs, offset_seconds));
}

/// In first-in-last-out mode each employee gets exactly one check-in per day:
/// the earliest event of that day.
pub proof fn law_first_in_last_out(s: Seq<EventView>, i: int)
    requires
        0 <= i < s.len(),
    ensures
        first_in_last_out(s)[i].event_type == "check_in"@ <==> !seen_before(s, i),
        first_in_last_out(s)[i].timestamp == s[i].timestamp,
        first_in_last_out(s)[i].device_employee_id == s[i].device_employee_id,
{
    reveal_strlit("check_in");
    reveal_strlit("check_out");
    assert("check_in"@.len() != "check_out"@.len());
}

// ── Sync results ─────────────────────────────────────────────────────────────

/// User/API-facing summary of one sync run.
#[derive(Debug, Clone, PartialEq, Eq)]
pub struct SyncResult {
    /// Whether the sync completed successfully.
    pub ok: bool,
    /// Device that this result belongs to.
    pub device_code: String,
    /// Number of raw records pulled from the device.
    pub pulled: usize,
    /// Number of events forwarded to HRMS.
    pub forwarded: usize,
    /// Whether device attendance was cleared after a successful upload.
    pub device_attendance_cleared: bool,
    /// ISO 8601 UTC timestamp when this sync started.
    pub started_at: String,
    /// Human-readable status.
    pub message: String,
}

/// The model of a [`SyncResult`].
pub struct SyncResultView {
    pub ok: bool,
    pub device_code: Seq<char>,
    pub pulled: nat,
    pub forwarded: nat,
    pub device_attendance_cleared: bool,
    pub started_at: Seq<char>,
    pub message: Seq<char>,
}

impl View for SyncResult {
    type V = SyncResultView;

    open spec fn view(&self) -> SyncResultView {
        SyncResultView {
            ok: self.ok,
            device_code: self.device_code@,
            pulled: self.pulled as nat,
            forwarded: self.forwarded as nat,
            device_attendance_cleared: self.device_attendance_cleared,
            started_at: self.started_at@,
            message: self.message@,
        }
    }
}

/// A field-by-field copy of a result.
pub fn copy_result(r: &SyncResult) -> (c: SyncResult)
    ensures
        c@ == r@,
{
    SyncResult {
        ok: r.ok,
        device_code: r.device_code.clone(),
        pulled: r.pulled,
        forwarded: r.forwarded,
        device_attendance_cleared: r.device_attendance_cleared,
        started_at: r.started_at.clone(),
        message: r.message.clone(),
    }
}


// ── Template payloads ────────────────────────────────────────────────────────

/// Standard (padded) base64 text of bytes.
pub uninterp spec fn base64_encoded(bytes: Seq<u8>) -> Seq<char>;

/// The bytes a standard base64 text decodes to, if it is canonical base64.
pub uninterp spec fn base64_decoded(text: Seq<char>) -> Option<Seq<u8>>;

/// `base64::engine::general_purpose::STANDARD.encode`. The contract names the
/// text and states the documented round trip: decoding it gives the bytes
/// back.
#[verifier::external_body]
fn base64_encode(bytes: &[u8]) -> (r: String)
    ensures
        r@ == base64_encoded(bytes@),
        base64_decoded(r@) == Some(bytes@),
{
    base64::engine::general_purpose::STANDARD.encode(bytes)
}

/// `base64::engine::general_purpose::STANDARD.decode`, its error rendered as
/// text. The contract names the decoded bytes; it says nothing of the error
/// text.
#[verifier::external_body]
fn base64_decode(text: &str) -> (r: Result<Vec<u8>, String>)
    ensures
        match r {
            Ok(v) => base64_decoded(text@) == Some(v@),
            Err(_) => base64_decoded(text@) is None,
        },
{
    base64::engine::general_purpose::STANDARD.decode(text.as_bytes()).map_err(|e| e.to_string())
}

/// HRMS JSON-safe template shape.
#[derive(Debug, Clone, PartialEq, Eq)]
pub struct FingerTemplatePayload {
    pub uid: u32,
    pub fid: u8,
    pub user_id: String,
    pub name: String,
    pub template_bytes: String,
}

impl FingerTemplate {
    /// Convert decoded bytes into the base64 shape expected by HRMS.
    pub fn to_payload(&self) -> (p: FingerTemplatePayload)
        ensures
            p.uid == self.uid,
            p.fid == self.fid,
            p.user_id@ == self.user_id@,
            p.name@ == self.name@,
            payload_of(*self, p),
    {
        FingerTemplatePayload {
            uid: self.uid,
            fid: self.fid,
            user_id: self.user_id.clone(),
            name: self.name.clone(),
            template_bytes: base64_encode(self.template.as_slice()),
        }
    }
}

impl FingerTemplatePayload {
    /// Decode an HRMS payload into the device-template shape; `Err` when the
    /// template text is not valid base64.
    pub fn decode(self) -> (r: Result<FingerTemplate, String>)
        ensures
            match r {
                Ok(t) => decoded_from(self, t),
                Err(m) => base64_decoded(self.template_bytes@) is None && starts_with(
                    m@,
                    "templateBytes is invalid base64: "@,
                ),
            },
    {
        match base64_decode(self.template_bytes.as_str()) {
            Ok(template) => Ok(
                FingerTemplate {
                    uid: self.uid,
                    fid: self.fid,
                    user_id: self.user_id,
                    name: self.name,
                    template,
                },
            ),
            Err(e) => {
                let mut m = String::from_str("templateBytes is invalid base64: ");
                let ghost head = m@;
                crate::text::push_str(&mut m, e.as_str());
                assert(m@.take(head.len() as int) =~= head);
                Err(m)
            },
        }
    }

    /// The user record a push-user job creates.
    pub fn user(&self) -> (u: DeviceUser)
        ensures
            u.uid == self.uid,
            u.user_id@ == self.user_id@,
            u.name@ == self.name@,
    {
        DeviceUser { uid: self.uid, user_id: self.user_id.clone(), name: self.name.clone() }
    }
}

/// `p` is what `to_payload` makes of `t`: the same identity, and template
/// text that is the base64 of the template and decodes back to it.
pub open spec fn payload_of(t: FingerTemplate, p: FingerTemplatePayload) -> bool {
    &&& p.uid == t.uid
    &&& p.fid == t.fid
    &&& p.user_id@ == t.user_id@
    &&& p.name@ == t.name@
    &&& p.template_bytes@ == base64_encoded(t.template@)
    &&& base64_decoded(p.template_bytes@) == Some(t.template@)
}

/// `t` is what a successful `decode` makes of `p`.
pub open spec fn decoded_from(p: FingerTemplatePayload, t: FingerTemplate) -> bool {
    &&& base64_decoded(p.template_bytes@) == Some(t.template@)
    &&& t.uid == p.uid
    &&& t.fid == p.fid
    &&& t.user_id@ == p.user_id@
    &&& t.name@ == p.name@
}

/// A template turned into its HRMS payload and decoded again is the same
/// template.
pub proof fn law_template_payload_roundtrip(t: FingerTemplate, p: FingerTemplatePayload, back: FingerTemplate)
    requires
        payload_of(t, p),
        decoded_from(p, back),
    ensures
        back@ == t@,
{
}

} // verus!
