//! Forwarding pushed SenseFace attendance to HRMS: pending records are
//! grouped by terminal serial (in serial order), each group is mapped to its
//! HRMS device, and a group is marked forwarded only once HRMS accepted it
//! (or it had nothing to send).

use vstd::prelude::*;

use crate::config::{BridgeDeviceConfig, SenseFaceConfig, SenseFaceDeviceConfig};
use crate::domain::{event_views, sort_by_time, EventView, HrmsEvent};
use crate::ports::{HrmsClient, HrmsError, SenseFaceStore, WebhookResult};
use crate::zk_client::extends;
use crate::senseface::{
    pending_events_of, senseface_timezone_offset, terminal_offset, to_hrms_events_from_senseface,
    PendingForwardAttendance,
};
use crate::text::{chars_le, chars_of, text_le, lemma_text_le_total};

verus! {

/// The HRMS identity of a terminal: its explicit mapping, else the default
/// key and organization under the code `<prefix>-<serial>`.
pub open spec fn resolved_identity(serial: Seq<char>, c: SenseFaceConfig) -> (Seq<char>, Seq<char>, u64) {
    if exists|k: int| 0 <= k < c.devices.len() && #[trigger] c.devices@[k].serial_number@ == serial {
        let k = choose|k: int|
            0 <= k < c.devices.len() && #[trigger] c.devices@[k].serial_number@ == serial && forall|j: int|
                0 <= j < k ==> c.devices@[j].serial_number@ != serial;
        (c.devices@[k].device_code@, c.devices@[k].api_key@, c.devices@[k].organization_id)
    } else {
        (c.device_code_prefix@ + "-"@ + serial, c.api_key@, c.organization_id)
    }
}

fn device_for(device_code: String, api_key: String, organization_id: u64) -> (d: BridgeDeviceConfig)
    ensures
        d.device_code@ == device_code@,
        d.api_key@ == api_key@,
        d.organization_id == organization_id,
        d.device_ip@ == Seq::<char>::empty(),
        d.device_port == 0,
        d.device_password == 0,
        d.device_timeout == 15,
        !d.device_force_udp,
        d.device_omit_ping,
        d.device_timezone is None,
        d.sync_interval_seconds == 300,
        !d.clear_attendance_after_sync,
        d.clear_attendance_threshold is None,
{
    BridgeDeviceConfig {
        device_ip: String::new(),
        device_port: 0,
        device_password: 0,
        device_timeout: 15,
        device_force_udp: false,
        device_omit_ping: true,
        device_timezone: None,
        device_code,
        api_key,
        organization_id,
        sync_interval_seconds: 300,
        clear_attendance_after_sync: false,
        clear_attendance_threshold: None,
    }
}

/// The device configuration pushed records of a terminal are forwarded
/// under.
pub fn resolve_device_config(serial: &str, config: &SenseFaceConfig) -> (d: BridgeDeviceConfig)
    ensures
        (d.device_code@, d.api_key@, d.organization_id) == resolved_identity(serial@, *config),
        d.device_ip@ == Seq::<char>::empty(),
        d.device_timeout == 15,
        d.device_omit_ping,
        d.device_timezone is None,
        d.sync_interval_seconds == 300,
        !d.clear_attendance_after_sync,
        d.clear_attendance_threshold is None,
{
    let mut k: usize = 0;
    while k < config.devices.len()
        invariant
            k <= config.devices.len(),
            forall|j: int| 0 <= j < k ==> #[trigger] config.devices@[j].serial_number@ != serial@,
        decreases config.devices.len() - k,
    {
        if crate::text::str_eq(config.devices[k].serial_number.as_str(), serial) {
            let m = &config.devices[k];
            proof {
                let w = choose|w: int|
                    0 <= w < config.devices.len() && #[trigger] config.devices@[w].serial_number@ == serial@
                        && forall|j: int| 0 <= j < w ==> config.devices@[j].serial_number@ != serial@;
                assert(0 <= k < config.devices.len() && config.devices@[k as int].serial_number@ == serial@
                    && forall|j: int| 0 <= j < k ==> config.devices@[j].serial_number@ != serial@);
                if w < k {
                } else if w > k {
                    assert(config.devices@[k as int].serial_number@ != serial@);
                }
            }
            return device_for(m.device_code.clone(), m.api_key.clone(), m.organization_id);
        }
        k += 1;
    }
    let mut code = config.device_code_prefix.clone();
    crate::text::push_str(&mut code, "-");
    crate::text::push_str(&mut code, serial);
    device_for(code, config.api_key.clone(), config.organization_id)
}

/// `a` comes strictly before `b` in text order.
pub open spec fn text_lt(a: Seq<char>, b: Seq<char>) -> bool {
    text_le(a, b) && a != b
}

/// The distinct serials of the records, in ascending text order (the order
/// of the original's `BTreeMap`).
pub open spec fn serials_in_order(rs: Seq<PendingForwardAttendance>, serials: Seq<Seq<char>>) -> bool {
    &&& forall|i: int, j: int| 0 <= i < j < serials.len() ==> text_lt(#[trigger] serials[i], #[trigger] serials[j])
    &&& forall|x: Seq<char>|
        #[trigger] serials.contains(x) <==> exists|k: int| 0 <= k < rs.len() && #[trigger] rs[k].serial_number@ == x
}

/// The indices (ascending) of the records below `n` with this serial.
pub open spec fn indices_with(rs: Seq<PendingForwardAttendance>, serial: Seq<char>, n: int) -> Seq<int>
    decreases n,
{
    if n <= 0 {
        seq![]
    } else if rs[n - 1].serial_number@ == serial {
        indices_with(rs, serial, n - 1).push(n - 1)
    } else {
        indices_with(rs, serial, n - 1)
    }
}

/// The texts of a list of character vectors.
pub open spec fn texts(v: Seq<Vec<char>>) -> Seq<Seq<char>> {
    v.map_values(|x: Vec<char>| x@)
}

/// Strictly ascending in text order.
pub open spec fn strictly_ascending(s: Seq<Seq<char>>) -> bool {
    forall|i: int, j: int| 0 <= i < j < s.len() ==> text_lt(#[trigger] s[i], #[trigger] s[j])
}

/// Insert `s` into the strictly ascending `serials` unless present.
fn insert_serial(serials: &mut Vec<Vec<char>>, s: Vec<char>)
    requires
        strictly_ascending(texts(old(serials)@)),
    ensures
        strictly_ascending(texts(final(serials)@)),
        forall|x: Seq<char>| #[trigger] texts(final(serials)@).contains(x) <==> (texts(old(serials)@).contains(x) || x == s@),
{
    let ghost old_t = texts(serials@);
    let mut j: usize = 0;
    while j < serials.len() && !chars_le(s.as_slice(), serials[j].as_slice())
        invariant
            j <= serials.len(),
            serials@ == old(serials)@,
            old_t == texts(serials@),
            forall|k: int| 0 <= k < j ==> !text_le(s@, #[trigger] old_t[k]),
        decreases serials.len() - j,
    {
        assert(old_t[j as int] == serials@[j as int]@);
        j += 1;
    }
    if j < serials.len() && crate::text::chars_eq(s.as_slice(), serials[j].as_slice()) {
        assert(old_t[j as int] == s@);
        return;
    }
    proof {
        if j < serials.len() {
            assert(old_t[j as int] == serials@[j as int]@);
            assert(text_le(s@, old_t[j as int]));
        }
        assert forall|k: int| 0 <= k < j implies text_lt(#[trigger] old_t[k], s@) by {
            lemma_text_le_total(s@, old_t[k]);
        }
    }
    let ghost sv = s@;
    serials.insert(j, s);
    let ghost new_t = texts(serials@);
    proof {
        assert(new_t =~= old_t.insert(j as int, sv));
        assert forall|a: int, b: int| 0 <= a < b < new_t.len() implies text_lt(#[trigger] new_t[a], #[trigger] new_t[b]) by {
            if b < j {
            } else if b == j {
            } else if a == j {
                if b - 1 > j {
                    crate::text::lemma_text_le_trans(sv, old_t[j as int], old_t[b - 1]);
                    if sv == old_t[b - 1] {
                        crate::text::lemma_text_le_antisym(sv, old_t[j as int]);
                    }
                }
            } else if a < j {
            } else {
            }
        }
        assert forall|x: Seq<char>| #[trigger] new_t.contains(x) <==> (old_t.contains(x) || x == sv) by {
            if new_t.contains(x) {
                let i = choose|i: int| 0 <= i < new_t.len() && new_t[i] == x;
                if i < j {
                    assert(old_t[i] == x);
                } else if i > j {
                    assert(old_t[i - 1] == x);
                }
            }
            if old_t.contains(x) {
                let i = choose|i: int| 0 <= i < old_t.len() && old_t[i] == x;
                if i < j {
                    assert(new_t[i] == x);
                } else {
                    assert(new_t[i + 1] == x);
                }
            }
            if x == sv {
                assert(new_t[j as int] == x);
            }
        }
    }
}

/// The distinct serials of the records, ascending.
pub fn distinct_serials(rs: &[PendingForwardAttendance]) -> (r: Vec<Vec<char>>)
    ensures
        serials_in_order(rs@, texts(r@)),
{
    let mut serials: Vec<Vec<char>> = Vec::new();
    let mut i: usize = 0;
    assert(texts(serials@) =~= Seq::<Seq<char>>::empty());
    while i < rs.len()
        invariant
            i <= rs.len(),
            strictly_ascending(texts(serials@)),
            forall|x: Seq<char>|
                #[trigger] texts(serials@).contains(x) <==> exists|k: int|
                    0 <= k < i && #[trigger] rs@[k].serial_number@ == x,
        decreases rs.len() - i,
    {
        let s = chars_of(rs[i].serial_number.as_str());
        let ghost before = texts(serials@);
        insert_serial(&mut serials, s);
        proof {
            assert forall|x: Seq<char>|
                #[trigger] texts(serials@).contains(x) <==> exists|k: int|
                    0 <= k < i + 1 && #[trigger] rs@[k].serial_number@ == x by {
                if x == rs@[i as int].serial_number@ {
                    assert(0 <= i < i + 1 && rs@[i as int].serial_number@ == x);
                }
                if exists|k: int| 0 <= k < i + 1 && #[trigger] rs@[k].serial_number@ == x {
                    let k = choose|k: int| 0 <= k < i + 1 && #[trigger] rs@[k].serial_number@ == x;
                    if k < i {
                        assert(before.contains(x));
                    }
                }
            }
        }
        i += 1;
    }
    assert(i == rs@.len());
    serials
}

/// The positions of the records with this serial, ascending.
pub fn indices_for(rs: &[PendingForwardAttendance], serial: &[char]) -> (r: Vec<usize>)
    ensures
        r@.map_values(|k: usize| k as int) == indices_with(rs@, serial@, rs.len() as int),
{
    let mut out: Vec<usize> = Vec::new();
    let mut i: usize = 0;
    while i < rs.len()
        invariant
            i <= rs.len(),
            out@.map_values(|k: usize| k as int) == indices_with(rs@, serial@, i as int),
        decreases rs.len() - i,
    {
        let s = chars_of(rs[i].serial_number.as_str());
        if crate::text::chars_eq(s.as_slice(), serial) {
            let ghost before = out@;
            out.push(i);
            assert(out@.map_values(|k: usize| k as int) =~= before.map_values(|k: usize| k as int).push(i as int));
        }
        i += 1;
    }
    out
}

/// A field-by-field copy of a pending record.
pub fn copy_pending(r: &PendingForwardAttendance) -> (c: PendingForwardAttendance)
    ensures
        c.id == r.id,
        c.serial_number@ == r.serial_number@,
        c.employee_id@ == r.employee_id@,
        c.event_time@ == r.event_time@,
        c.status@ == r.status@,
        c.verify_mode@ == r.verify_mode@,
        c.work_code@ == r.work_code@,
        c.employee_name@ == r.employee_name@,
{
    PendingForwardAttendance {
        id: r.id,
        serial_number: r.serial_number.clone(),
        employee_id: r.employee_id.clone(),
        event_time: r.event_time.clone(),
        status: r.status.clone(),
        verify_mode: r.verify_mode.clone(),
        work_code: r.work_code.clone(),
        employee_name: r.employee_name.clone(),
    }
}

/// The offset pushed records are read at: the configured terminal timezone,
/// or UTC when it is unknown.
pub open spec fn forward_offset(c: SenseFaceConfig) -> int {
    match terminal_offset(c.timezone@) {
        Some(o) => o,
        None => 0,
    }
}

proof fn lemma_indices_below(p: Seq<PendingForwardAttendance>, serial: Seq<char>, n: int)
    requires
        0 <= n,
    ensures
        forall|k: int|
            0 <= k < indices_with(p, serial, n).len() ==> 0 <= #[trigger] indices_with(p, serial, n)[k] < n,
    decreases n,
{
    if n > 0 {
        lemma_indices_below(p, serial, n - 1);
        let prev = indices_with(p, serial, n - 1);
        let cur = indices_with(p, serial, n);
        assert forall|k: int| 0 <= k < cur.len() implies 0 <= #[trigger] cur[k] < n by {
            if k < prev.len() {
                assert(cur[k] == prev[k]);
            }
        }
    }
}

proof fn lemma_step_pushed(before: Seq<SerialStep>, after: Seq<SerialStep>, s0: int, x: SerialStep)
    requires
        after == before.push(x),
        0 <= s0 <= before.len(),
    ensures
        after.skip(s0) == before.skip(s0).push(x),
{
    assert(after.skip(s0) =~= before.skip(s0).push(x));
}

/// A store answer with the records as a sequence.
pub open spec fn read_view(x: Result<Vec<PendingForwardAttendance>, String>) -> Result<
    Seq<PendingForwardAttendance>,
    String,
> {
    match x {
        Ok(v) => Ok(v@),
        Err(e) => Err(e),
    }
}

/// The same pending record: id and every text field.
pub open spec fn same_pending(a: PendingForwardAttendance, b: PendingForwardAttendance) -> bool {
    &&& a.id == b.id
    &&& a.serial_number@ == b.serial_number@
    &&& a.employee_id@ == b.employee_id@
    &&& a.event_time@ == b.event_time@
    &&& a.status@ == b.status@
    &&& a.verify_mode@ == b.verify_mode@
    &&& a.work_code@ == b.work_code@
    &&& a.employee_name@ == b.employee_name@
}

/// `group` holds the records of `p` at the positions `idx`, in that order.
pub open spec fn group_of(group: Seq<PendingForwardAttendance>, p: Seq<PendingForwardAttendance>, idx: Seq<int>) -> bool {
    &&& group.len() == idx.len()
    &&& forall|i: int| 0 <= i < idx.len() ==> 0 <= #[trigger] idx[i] < p.len() && same_pending(group[i], p[idx[i]])
}

/// The ids of a group of records.
pub open spec fn ids_of(group: Seq<PendingForwardAttendance>) -> Seq<i64> {
    group.map_values(|r: PendingForwardAttendance| r.id)
}

/// What one forward pass did for one terminal serial: the serial, its
/// records, the HRMS device and events they map to, the upload made (none
/// when there were no events) and the marking made (the ids and the store's
/// answer; none when the records stayed pending).
pub struct SerialStep {
    pub serial: Seq<char>,
    pub records: Seq<PendingForwardAttendance>,
    pub device: BridgeDeviceConfig,
    pub url: Seq<char>,
    pub events: Seq<EventView>,
    pub upload: Option<Result<WebhookResult, HrmsError>>,
    pub mark: Option<(Seq<i64>, Result<(), String>)>,
}

/// One serial's step is what the pass owes it: its records in order, the
/// device its serial resolves to, the events they map to, an upload exactly
/// when there are events, and a marking of exactly those ids when there
/// were no events or the upload succeeded.
pub open spec fn step_done(
    s: SerialStep,
    p: Seq<PendingForwardAttendance>,
    serial: Seq<char>,
    c: SenseFaceConfig,
    url: Seq<char>,
) -> bool {
    &&& s.serial == serial
    &&& group_of(s.records, p, indices_with(p, serial, p.len() as int))
    &&& (s.device.device_code@, s.device.api_key@, s.device.organization_id) == resolved_identity(serial, c)
    &&& s.url == url
    &&& s.events == sort_by_time(pending_events_of(s.records, forward_offset(c)))
    &&& (s.upload is None <==> s.events.len() == 0)
    &&& (s.mark is Some <==> (s.events.len() == 0 || (s.upload matches Some(u) && u is Ok)))
    &&& (s.mark matches Some(m) ==> m.0 == ids_of(s.records))
}

/// Whether a step's marking failed.
pub open spec fn mark_failed(s: SerialStep) -> bool {
    s.mark matches Some(m) && m.1 is Err
}

/// A forward pass over the pending records `p`: the serials are taken in
/// ascending order, each gets its step, and the pass stops at the first
/// marking the store refuses; that refusal is the result.
pub open spec fn forward_pass(
    t: Seq<SerialStep>,
    p: Seq<PendingForwardAttendance>,
    c: SenseFaceConfig,
    url: Seq<char>,
    r: Result<(), String>,
) -> bool {
    exists|ss: Seq<Seq<char>>|
        #[trigger] serials_in_order(p, ss) && {
            &&& t.len() <= ss.len()
            &&& forall|i: int| 0 <= i < t.len() ==> step_done(#[trigger] t[i], p, ss[i], c, url)
            &&& forall|i: int| 0 <= i < t.len() - 1 ==> !mark_failed(#[trigger] t[i])
            &&& r is Ok ==> t.len() == ss.len() && forall|i: int| 0 <= i < t.len() ==> !mark_failed(#[trigger] t[i])
            &&& r matches Err(e) ==> t.len() > 0 && (t.last().mark matches Some(m) && m.1 == Err::<(), String>(e))
        }
}

/// Moves pushed attendance from the store to HRMS.
pub struct SenseFaceForwarder {
    store: Box<dyn SenseFaceStore>,
    hrms: Box<dyn HrmsClient>,
    config: SenseFaceConfig,
    webhook_url: String,
    /// Every read of pending records: the most asked for, and the store's answer.
    reads: Ghost<Seq<(usize, Result<Seq<PendingForwardAttendance>, String>)>>,
    /// Every serial step of every pass, in order.
    steps: Ghost<Seq<SerialStep>>,
}

impl SenseFaceForwarder {
    /// The receiver configuration records are forwarded under.
    pub closed spec fn settings(&self) -> SenseFaceConfig {
        self.config
    }

    /// The webhook URL records are uploaded to.
    pub closed spec fn webhook(&self) -> Seq<char> {
        self.webhook_url@
    }

    /// Every read of pending records: the most asked for, and the store's answer.
    pub closed spec fn reads(&self) -> Seq<(usize, Result<Seq<PendingForwardAttendance>, String>)> {
        self.reads@
    }

    /// Every serial step of every pass, in order.
    pub closed spec fn steps(&self) -> Seq<SerialStep> {
        self.steps@
    }

    pub fn new(
        store: Box<dyn SenseFaceStore>,
        hrms: Box<dyn HrmsClient>,
        config: SenseFaceConfig,
        webhook_url: String,
    ) -> (f: Self)
        ensures
            f.settings() == config,
            f.webhook() == webhook_url@,
            f.reads().len() == 0,
            f.steps().len() == 0,
    {
        SenseFaceForwarder { store, hrms, config, webhook_url, reads: Ghost(Seq::empty()), steps: Ghost(Seq::empty()) }
    }

    /// How often a forward cycle runs: the configured interval, at least 5 s.
    pub fn interval_seconds(&self) -> (r: u64)
        ensures
            r == if self.settings().forward_interval_seconds < 5 {
                5
            } else {
                self.settings().forward_interval_seconds
            },
    {
        if self.config.forward_interval_seconds < 5 {
            5
        } else {
            self.config.forward_interval_seconds
        }
    }

    /// One forward cycle over at most 200 pending records. A terminal's
    /// records are marked forwarded only when they map to no event or HRMS
    /// accepted their events; `Err` is a store failure.
    pub fn forward_once(&mut self) -> (r: Result<(), String>)
        ensures
            final(self).settings() == old(self).settings(),
            final(self).webhook() == old(self).webhook(),
            final(self).reads().len() == old(self).reads().len() + 1,
            final(self).reads().last().0 == 200,
            extends(old(self).reads(), final(self).reads()),
            extends(old(self).steps(), final(self).steps()),
            ({
                let read = final(self).reads().last().1;
                let t = final(self).steps().skip(old(self).steps().len() as int);
                &&& (read matches Err(e) ==> r == Err::<(), String>(e) && t.len() == 0)
                &&& (read matches Ok(p) ==> forward_pass(t, p, old(self).settings(), old(self).webhook(), r))
                &&& (read matches Ok(p) && p.len() == 0) ==> r is Ok && t.len() == 0
            }),
    {
        let ghost s0 = self.steps@.len() as int;
        let fetched = self.store.get_pending_forward_attendance(200);
        proof {
            self.reads@ = self.reads@.push((200usize, read_view(fetched)));
            assert(self.steps@.skip(s0) =~= Seq::<SerialStep>::empty());
        }
        let pending = match fetched {
            Ok(p) => p,
            Err(e) => {
                return Err(e);
            },
        };
        let serials = distinct_serials(pending.as_slice());
        let ghost ss = texts(serials@);
        if pending.len() == 0 {
            proof {
                if ss.len() > 0 {
                    assert(ss.contains(ss[0]));
                }
                assert(serials_in_order(pending@, ss));
            }
            return Ok(());
        }
        let offset: i32 = match senseface_timezone_offset(self.config.timezone.as_str()) {
            Some(o) => o,
            None => 0,
        };
        let mut g: usize = 0;
        while g < serials.len()
            invariant
                -86400 < offset < 86400,
                offset as int == forward_offset(self.config),
                self.config == old(self).config,
                self.webhook_url@ == old(self).webhook_url@,
                self.reads@ == old(self).reads@.push((200usize, Ok(pending@))),
                ss == texts(serials@),
                serials_in_order(pending@, ss),
                pending@.len() > 0,
                s0 == old(self).steps@.len(),
                extends(old(self).steps@, self.steps@),
                self.steps@.len() == s0 + g,
                g <= serials.len(),
                forall|i: int|
                    0 <= i < g ==> step_done(
                        #[trigger] self.steps@.skip(s0)[i],
                        pending@,
                        ss[i],
                        self.config,
                        self.webhook_url@,
                    ) && !mark_failed(self.steps@.skip(s0)[i]),
            decreases serials.len() - g,
        {
            let serial = crate::text::string_of(serials[g].as_slice());
            let device = resolve_device_config(serial.as_str(), &self.config);
            let idx = indices_for(pending.as_slice(), serials[g].as_slice());
            let ghost iv = indices_with(pending@, ss[g as int], pending@.len() as int);
            proof {
                lemma_indices_below(pending@, ss[g as int], pending@.len() as int);
            }
            assert(serials@[g as int]@ == ss[g as int]);
            let mut records: Vec<PendingForwardAttendance> = Vec::new();
            let mut ids: Vec<i64> = Vec::new();
            let mut k: usize = 0;
            while k < idx.len()
                invariant
                    k <= idx.len(),
                    idx@.map_values(|x: usize| x as int) == iv,
                    records@.len() == k,
                    ids@ == ids_of(records@),
                    forall|i: int| 0 <= i < iv.len() ==> 0 <= #[trigger] iv[i] < pending@.len(),
                    forall|i: int|
                        0 <= i < k ==> 0 <= #[trigger] iv[i] < pending@.len() && same_pending(
                            records@[i],
                            pending@[iv[i]],
                        ),
                decreases idx.len() - k,
            {
                assert(iv[k as int] == idx@[k as int] as int);
                if idx[k] < pending.len() {
                    records.push(copy_pending(&pending[idx[k]]));
                    ids.push(pending[idx[k]].id);
                    assert(ids@ =~= ids_of(records@));
                } else {
                    assert(false);
                }
                k += 1;
            }
            let events = to_hrms_events_from_senseface(
                records.as_slice(),
                offset,
                device.device_code.as_str(),
                device.api_key.as_str(),
                device.organization_id,
            );
            let ghost ev = event_views(events@);
            let ghost prev = self.steps@;
            proof {
                assert(group_of(records@, pending@, iv));
                assert(ev.len() == events@.len());
                assert(serial@ == ss[g as int]);
            }
            let ghost step = SerialStep {
                serial: ss[g as int],
                records: records@,
                device: device,
                url: self.webhook_url@,
                events: ev,
                upload: None,
                mark: None,
            };
            if events.len() == 0 {
                let marked = self.store.mark_attendance_forwarded(ids.as_slice());
                proof {
                    self.steps@ = self.steps@.push(
                        SerialStep {
                            serial: step.serial,
                            records: step.records,
                            device: step.device,
                            url: step.url,
                            events: step.events,
                            upload: None,
                            mark: Some((ids@, marked)),
                        },
                    );
                    lemma_step_pushed(prev, self.steps@, s0, self.steps@.last());
                }
                match marked {
                    Ok(()) => {},
                    Err(e) => {
                        proof {
                            let t = self.steps@.skip(s0);
                            assert(t.len() == g + 1);
                            assert(t[g as int] == t.last());
                            assert(step_done(t[g as int], pending@, ss[g as int], self.config, self.webhook_url@));
                            assert(serials_in_order(pending@, ss));
                        }
                        return Err(e);
                    },
                }
            } else {
                let uploaded = self.hrms.forward_events(self.webhook_url.as_str(), &device, events.as_slice());
                match uploaded {
                    Ok(w) => {
                        let marked = self.store.mark_attendance_forwarded(ids.as_slice());
                        proof {
                            self.steps@ = self.steps@.push(
                                SerialStep {
                                    serial: step.serial,
                                    records: step.records,
                                    device: step.device,
                                    url: step.url,
                                    events: step.events,
                                    upload: Some(Ok(w)),
                                    mark: Some((ids@, marked)),
                                },
                            );
                            lemma_step_pushed(prev, self.steps@, s0, self.steps@.last());
                        }
                        match marked {
                            Ok(()) => {},
                            Err(e) => {
                                proof {
                                                                        assert(serials_in_order(pending@, ss));
                                }
                                return Err(e);
                            },
                        }
                    },
                    Err(e) => {
                        proof {
                            self.steps@ = self.steps@.push(
                                SerialStep {
                                    serial: step.serial,
                                    records: step.records,
                                    device: step.device,
                                    url: step.url,
                                    events: step.events,
                                    upload: Some(Err(e)),
                                    mark: None,
                                },
                            );
                            lemma_step_pushed(prev, self.steps@, s0, self.steps@.last());
                        }
                    },
                }
            }
            g += 1;
        }
        proof {
            assert(serials_in_order(pending@, ss));
            assert(forward_pass(self.steps@.skip(s0), pending@, self.config, self.webhook_url@, Ok(())));
        }
        Ok(())
    }
}

} // verus!
