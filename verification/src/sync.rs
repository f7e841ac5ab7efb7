//! Per-device sync: pull attendance, forward it to HRMS, and clear the device
//! only after the upload succeeded.
//!
//! The decisions are three step functions, one per outside answer (the
//! device's records, the webhook's reply, the clear's outcome). Each is
//! verified for every answer; [`DeviceSyncState::sync_once`] feeds them what
//! the adapters return.

use vstd::prelude::*;

use crate::config::{device_offset, BridgeDeviceConfig};
use crate::domain::{
    attendance_views, copy_result, hrms_events, to_hrms_events, AttendanceView, EventTypeMode,
    HrmsEvent, RawAttendance, SyncResult, SyncResultView,
};
use crate::ports::{DeviceClient, DeviceConnector, HrmsClient, WebhookResult};
use crate::text::{
    byte_len_upto, chars_of, dec, floor_prefix, floor_prefix_bytes, push_chars, push_dec, push_str,
    replace_all, replace_chars, string_of, utf8_len,
};

verus! {

// ── Messages ─────────────────────────────────────────────────────────────────

/// An error message with the device's API key and code masked, cut to 200
/// bytes (at a character boundary) plus `...` when longer.
pub open spec fn sanitized(message: Seq<char>, d: BridgeDeviceConfig) -> Seq<char> {
    let s = replace_all(replace_all(message, d.api_key@, "***"@), d.device_code@, "***"@);
    if utf8_len(s) > 200 {
        floor_prefix_bytes(s, 200) + "..."@
    } else {
        s
    }
}

/// Mask the device's secrets in an error message before it is stored or
/// shown.
pub fn sanitize(message: &str, device: &BridgeDeviceConfig) -> (r: String)
    ensures
        r@ == sanitized(message@, *device),
{
    let m = chars_of(message);
    let key = chars_of(device.api_key.as_str());
    let code = chars_of(device.device_code.as_str());
    let stars = chars_of("***");
    let a = replace_chars(m.as_slice(), key.as_slice(), stars.as_slice());
    let b = replace_chars(a.as_slice(), code.as_slice(), stars.as_slice());
    if byte_len_upto(b.as_slice(), 200) > 200 {
        let cut = floor_prefix(b.as_slice(), 200);
        let mut s = string_of(cut.as_slice());
        push_str(&mut s, "...");
        s
    } else {
        string_of(b.as_slice())
    }
}

/// `forwarded <n> event(s)`.
pub open spec fn forwarded_text(n: nat) -> Seq<char> {
    "forwarded "@ + dec(n) + " event(s)"@
}

/// Whether a successful upload of `pulled` records may be followed by
/// clearing the device: always when configured so, or once the pulled count
/// reaches the configured threshold.
pub open spec fn clear_allowed(d: BridgeDeviceConfig, pulled: nat) -> bool {
    d.clear_attendance_after_sync || (d.clear_attendance_threshold matches Some(t) && pulled >= t)
}

/// A sync result.
pub open spec fn sync_view(
    ok: bool,
    d: BridgeDeviceConfig,
    pulled: nat,
    forwarded: nat,
    cleared: bool,
    started_at: Seq<char>,
    message: Seq<char>,
) -> SyncResultView {
    SyncResultView {
        ok,
        device_code: d.device_code@,
        pulled,
        forwarded,
        device_attendance_cleared: cleared,
        started_at,
        message,
    }
}

// ── Steps ────────────────────────────────────────────────────────────────────

/// What a sync does next.
pub enum SyncStep {
    /// Send these events to HRMS; `pulled` records were read.
    Forward { pulled: usize, events: Vec<HrmsEvent> },
    /// Clear the device; the upload of `events` events succeeded and HRMS
    /// accepted `forwarded` of them.
    Clear { pulled: usize, forwarded: usize, events: usize },
    /// The sync is over.
    Done(SyncResult),
}

/// The model of a [`SyncStep`].
pub enum SyncStepView {
    Forward { pulled: nat, events: Seq<crate::domain::EventView> },
    Clear { pulled: nat, forwarded: nat, events: nat },
    Done(SyncResultView),
}

impl View for SyncStep {
    type V = SyncStepView;

    open spec fn view(&self) -> SyncStepView {
        match self {
            SyncStep::Forward { pulled, events } => SyncStepView::Forward {
                pulled: *pulled as nat,
                events: crate::domain::event_views(events@),
            },
            SyncStep::Clear { pulled, forwarded, events } => SyncStepView::Clear {
                pulled: *pulled as nat,
                forwarded: *forwarded as nat,
                events: *events as nat,
            },
            SyncStep::Done(r) => SyncStepView::Done(r@),
        }
    }
}

/// The step after the device answered a pull (or the connection failed,
/// which the caller reports the same way).
pub open spec fn pull_step(
    d: BridgeDeviceConfig,
    started_at: Seq<char>,
    pulled: Result<Seq<AttendanceView>, Seq<char>>,
) -> SyncStepView {
    match pulled {
        Err(m) => SyncStepView::Done(sync_view(false, d, 0, 0, false, started_at, sanitized(m, d))),
        Ok(rs) => {
            let events = hrms_events(rs, device_offset(d), EventTypeMode::PunchCode);
            if events.len() == 0 {
                SyncStepView::Done(
                    sync_view(true, d, rs.len(), 0, false, started_at, "no events to forward"@),
                )
            } else {
                SyncStepView::Forward { pulled: rs.len(), events }
            }
        },
    }
}

/// The step after HRMS answered the upload of `events` events.
pub open spec fn forward_step(
    d: BridgeDeviceConfig,
    started_at: Seq<char>,
    pulled: nat,
    events: nat,
    forwarded: Result<nat, Seq<char>>,
) -> SyncStepView {
    match forwarded {
        Err(m) => SyncStepView::Done(
            sync_view(false, d, pulled, 0, false, started_at, sanitized(m, d)),
        ),
        Ok(received) => if clear_allowed(d, pulled) {
            SyncStepView::Clear { pulled, forwarded: received, events }
        } else {
            SyncStepView::Done(
                sync_view(true, d, pulled, received, false, started_at, forwarded_text(events)),
            )
        },
    }
}

/// The result after the device answered the clear.
pub open spec fn clear_result(
    d: BridgeDeviceConfig,
    started_at: Seq<char>,
    pulled: nat,
    forwarded: nat,
    events: nat,
    cleared: Result<(), Seq<char>>,
) -> SyncResultView {
    match cleared {
        Ok(()) => sync_view(true, d, pulled, forwarded, true, started_at, forwarded_text(events)),
        Err(m) => sync_view(
            true,
            d,
            pulled,
            forwarded,
            false,
            started_at,
            "forwarded events but failed to clear attendance: "@ + sanitized(m, d),
        ),
    }
}

/// A whole sync, for every answer the device and HRMS may give.
pub open spec fn sync_run(
    d: BridgeDeviceConfig,
    started_at: Seq<char>,
    pulled: Result<Seq<AttendanceView>, Seq<char>>,
    forwarded: Result<nat, Seq<char>>,
    cleared: Result<(), Seq<char>>,
) -> SyncResultView {
    match pull_step(d, started_at, pulled) {
        SyncStepView::Done(r) => r,
        SyncStepView::Clear { .. } => sync_view(false, d, 0, 0, false, started_at, seq![]),
        SyncStepView::Forward { pulled: n, events } => match forward_step(
            d,
            started_at,
            n,
            events.len(),
            forwarded,
        ) {
            SyncStepView::Done(r) => r,
            SyncStepView::Clear { pulled: p, forwarded: f, events: e } => clear_result(
                d,
                started_at,
                p,
                f,
                e,
                cleared,
            ),
            SyncStepView::Forward { .. } => sync_view(false, d, 0, 0, false, started_at, seq![]),
        },
    }
}

/// The model of what a device pull returned.
pub open spec fn pull_model(r: Result<Vec<RawAttendance>, String>) -> Result<Seq<AttendanceView>, Seq<char>> {
    match r {
        Ok(v) => Ok(attendance_views(v@)),
        Err(m) => Err(m@),
    }
}

/// The model of what an HRMS upload returned.
pub open spec fn forward_model(r: Result<WebhookResult, String>) -> Result<nat, Seq<char>> {
    match r {
        Ok(w) => Ok(w.received as nat),
        Err(m) => Err(m@),
    }
}

/// The model of what a device clear returned.
pub open spec fn clear_model(r: Result<(), String>) -> Result<(), Seq<char>> {
    match r {
        Ok(()) => Ok(()),
        Err(m) => Err(m@),
    }
}

fn result(
    ok: bool,
    device: &BridgeDeviceConfig,
    pulled: usize,
    forwarded: usize,
    cleared: bool,
    started_at: &String,
    message: String,
) -> (r: SyncResult)
    ensures
        r@ == sync_view(
            ok,
            *device,
            pulled as nat,
            forwarded as nat,
            cleared,
            started_at@,
            message@,
        ),
{
    SyncResult {
        ok,
        device_code: device.device_code.clone(),
        pulled,
        forwarded,
        device_attendance_cleared: cleared,
        started_at: started_at.clone(),
        message,
    }
}

fn forwarded_message(n: usize) -> (s: String)
    ensures
        s@ == forwarded_text(n as nat),
{
    let mut s = String::from_str("forwarded ");
    push_dec(&mut s, n as u64);
    push_str(&mut s, " event(s)");
    s
}

/// The step after the device answered a pull.
pub fn after_pull(
    device: &BridgeDeviceConfig,
    started_at: &String,
    pulled: Result<Vec<RawAttendance>, String>,
) -> (r: SyncStep)
    ensures
        r@ == pull_step(*device, started_at@, pull_model(pulled)),
{
    match pulled {
        Err(m) => SyncStep::Done(
            result(false, device, 0, 0, false, started_at, sanitize(m.as_str(), device)),
        ),
        Ok(records) => {
            let events = to_hrms_events(
                records.as_slice(),
                device.utc_offset(),
                EventTypeMode::PunchCode,
            );
            if events.len() == 0 {
                SyncStep::Done(
                    result(
                        true,
                        device,
                        records.len(),
                        0,
                        false,
                        started_at,
                        String::from_str("no events to forward"),
                    ),
                )
            } else {
                SyncStep::Forward { pulled: records.len(), events }
            }
        },
    }
}

/// The step after HRMS answered the upload of `events` events.
pub fn after_forward(
    device: &BridgeDeviceConfig,
    started_at: &String,
    pulled: usize,
    events: usize,
    forwarded: Result<WebhookResult, String>,
) -> (r: SyncStep)
    ensures
        r@ == forward_step(
            *device,
            started_at@,
            pulled as nat,
            events as nat,
            forward_model(forwarded),
        ),
{
    match forwarded {
        Err(m) => SyncStep::Done(
            result(false, device, pulled, 0, false, started_at, sanitize(m.as_str(), device)),
        ),
        Ok(w) => {
            let allowed = device.clear_attendance_after_sync || match device.clear_attendance_threshold {
                Some(t) => pulled as u64 >= t,
                None => false,
            };
            if allowed {
                SyncStep::Clear { pulled, forwarded: w.received, events }
            } else {
                SyncStep::Done(
                    result(
                        true,
                        device,
                        pulled,
                        w.received,
                        false,
                        started_at,
                        forwarded_message(events),
                    ),
                )
            }
        },
    }
}

/// The result after the device answered the clear.
pub fn after_clear(
    device: &BridgeDeviceConfig,
    started_at: &String,
    pulled: usize,
    forwarded: usize,
    events: usize,
    cleared: Result<(), String>,
) -> (r: SyncResult)
    ensures
        r@ == clear_result(
            *device,
            started_at@,
            pulled as nat,
            forwarded as nat,
            events as nat,
            clear_model(cleared),
        ),
{
    match cleared {
        Ok(()) => result(true, device, pulled, forwarded, true, started_at, forwarded_message(events)),
        Err(m) => {
            let mut s = String::from_str("forwarded events but failed to clear attendance: ");
            let safe = sanitize(m.as_str(), device);
            push_str(&mut s, safe.as_str());
            result(true, device, pulled, forwarded, false, started_at, s)
        },
    }
}


// ── Per-device state ─────────────────────────────────────────────────────────

/// One call a sync makes to the device or HRMS, with its answer.
pub enum SyncCall {
    /// Connecting with this device configuration.
    Connect(BridgeDeviceConfig, Result<(), Seq<char>>),
    /// Reading the device's attendance.
    Pull(Result<Seq<AttendanceView>, Seq<char>>),
    /// Uploading events to the webhook as this device; HRMS's count or its
    /// error.
    Forward(Seq<char>, BridgeDeviceConfig, Seq<crate::domain::EventView>, Result<nat, Seq<char>>),
    /// Clearing the device's attendance.
    Clear(Result<(), Seq<char>>),
    /// Closing the device session.
    Disconnect,
}

/// The calls of a session with a connected device, given its answers: the
/// pull; the upload of the pulled records' events as device `d`, when there
/// are any; the
/// clear, only when that upload succeeded and clearing is allowed for the
/// pulled count.
pub open spec fn session_calls(
    d: BridgeDeviceConfig,
    url: Seq<char>,
    p: Result<Seq<AttendanceView>, Seq<char>>,
    f: Result<nat, Seq<char>>,
    c: Result<(), Seq<char>>,
) -> Seq<SyncCall> {
    seq![SyncCall::Pull(p)] + match p {
        Err(_) => Seq::<SyncCall>::empty(),
        Ok(rs) => {
            let ev = hrms_events(rs, device_offset(d), EventTypeMode::PunchCode);
            if ev.len() == 0 {
                Seq::<SyncCall>::empty()
            } else {
                seq![SyncCall::Forward(url, d, ev, f)] + match f {
                    Ok(_) => if clear_allowed(d, rs.len()) {
                        seq![SyncCall::Clear(c)]
                    } else {
                        Seq::<SyncCall>::empty()
                    },
                    Err(_) => Seq::<SyncCall>::empty(),
                }
            }
        },
    }
}

/// The calls of a whole sync: connect with device `d`'s configuration, and
/// with a connection the session's calls and then the disconnect.
pub open spec fn sync_calls(
    d: BridgeDeviceConfig,
    url: Seq<char>,
    connected: Result<(), Seq<char>>,
    p: Result<Seq<AttendanceView>, Seq<char>>,
    f: Result<nat, Seq<char>>,
    c: Result<(), Seq<char>>,
) -> Seq<SyncCall> {
    match connected {
        Err(m) => seq![SyncCall::Connect(d, Err(m))],
        Ok(()) => seq![SyncCall::Connect(d, Ok(()))] + session_calls(d, url, p, f, c) + seq![SyncCall::Disconnect],
    }
}

/// What a sync reports as read: a failed connection is reported as a failed
/// read.
pub open spec fn read_outcome(
    connected: Result<(), Seq<char>>,
    p: Result<Seq<AttendanceView>, Seq<char>>,
) -> Result<Seq<AttendanceView>, Seq<char>> {
    match connected {
        Err(m) => Err(m),
        Ok(()) => p,
    }
}

/// Runtime state for one configured device.
pub struct DeviceSyncState {
    device: BridgeDeviceConfig,
    webhook_url: String,
    connector: Box<dyn DeviceConnector>,
    hrms: Box<dyn HrmsClient>,
    log_progress: bool,
    in_progress: bool,
    last_result: Option<SyncResult>,
    progress: Vec<String>,
    /// Every call made to the device or HRMS, with its answer.
    calls: Ghost<Seq<SyncCall>>,
}

fn bool_text(b: bool) -> (r: &'static str)
    ensures
        r@ == (if b {
            "true"@
        } else {
            "false"@
        }),
{
    if b {
        "true"
    } else {
        "false"
    }
}

impl DeviceSyncState {
    /// The device configuration this state syncs.
    pub closed spec fn config(&self) -> BridgeDeviceConfig {
        self.device
    }

    /// The webhook this state forwards to.
    pub closed spec fn webhook(&self) -> Seq<char> {
        self.webhook_url@
    }

    /// Whether progress lines are recorded.
    pub closed spec fn logs_progress(&self) -> bool {
        self.log_progress
    }

    /// The result of the last sync, if any.
    pub closed spec fn last(&self) -> Option<SyncResultView> {
        match self.last_result {
            Some(r) => Some(r@),
            None => None,
        }
    }

    /// Whether a sync is running.
    pub closed spec fn busy(&self) -> bool {
        self.in_progress
    }

    /// The progress lines recorded and not yet taken, oldest first.
    pub closed spec fn pending_progress(&self) -> Seq<Seq<char>> {
        self.progress@.map_values(|l: String| l@)
    }

    /// Every call made to the device or HRMS so far, with its answer.
    pub closed spec fn calls(&self) -> Seq<SyncCall> {
        self.calls@
    }

    pub fn new(
        device: BridgeDeviceConfig,
        webhook_url: String,
        connector: Box<dyn DeviceConnector>,
        hrms: Box<dyn HrmsClient>,
    ) -> (s: Self)
        ensures
            s.config() == device,
            s.webhook() == webhook_url@,
            s.pending_progress().len() == 0,
            s.calls().len() == 0,
            !s.logs_progress(),
            s.last() is None,
            !s.busy(),
    {
        DeviceSyncState {
            device,
            webhook_url,
            connector,
            hrms,
            log_progress: false,
            in_progress: false,
            last_result: None,
            progress: Vec::new(),
            calls: Ghost(Seq::empty()),
        }
    }

    /// Enable progress lines for long-running service mode.
    pub fn with_progress_logging(self) -> (s: Self)
        ensures
            s.logs_progress(),
            s.pending_progress() == self.pending_progress(),
            s.calls() == self.calls(),
            s.config() == self.config(),
            s.webhook() == self.webhook(),
            s.last() == self.last(),
            s.busy() == self.busy(),
    {
        let mut s = self;
        s.log_progress = true;
        s
    }

    pub fn device_code(&self) -> (r: &str)
        ensures
            r@ == self.config().device_code@,
    {
        self.device.device_code.as_str()
    }

    pub fn sync_interval_seconds(&self) -> (r: u64)
        ensures
            r == self.config().sync_interval_seconds,
    {
        self.device.sync_interval_seconds
    }

    /// Whether a sync is running right now.
    pub fn syncing(&self) -> (r: bool)
        ensures
            r == self.busy(),
    {
        self.in_progress
    }

    pub fn last_result(&self) -> (r: Option<SyncResult>)
        ensures
            match r {
                Some(x) => self.last() == Some(x@),
                None => self.last() is None,
            },
    {
        match &self.last_result {
            Some(x) => Some(copy_result(x)),
            None => None,
        }
    }

    /// The progress lines recorded since the last call, oldest first.
    pub fn take_progress(&mut self) -> (lines: Vec<String>)
        ensures
            lines@.map_values(|l: String| l@) == old(self).pending_progress(),
            final(self).pending_progress().len() == 0,
            final(self).config() == old(self).config(),
            final(self).webhook() == old(self).webhook(),
            final(self).logs_progress() == old(self).logs_progress(),
            final(self).last() == old(self).last(),
            final(self).busy() == old(self).busy(),
    {
        let mut lines: Vec<String> = Vec::new();
        std::mem::swap(&mut lines, &mut self.progress);
        lines
    }

    fn note(&mut self, line: String)
        ensures
            final(self).calls() == old(self).calls(),
            final(self).pending_progress() == if old(self).logs_progress() {
                old(self).pending_progress().push(line@)
            } else {
                old(self).pending_progress()
            },
            final(self).config() == old(self).config(),
            final(self).webhook() == old(self).webhook(),
            final(self).logs_progress() == old(self).logs_progress(),
            final(self).last() == old(self).last(),
            final(self).busy() == old(self).busy(),
    {
        if self.log_progress {
            self.progress.push(line);
            assert(self.progress@.map_values(|l: String| l@) =~= old(self).progress@.map_values(|l: String| l@).push(line@));
        }
    }

    /// Run one sync attempt with a connected client.
    fn sync_with_client(&mut self, client: &mut Box<dyn DeviceClient>, started_at: &String) -> (r: SyncResult)
        ensures
            final(self).config() == old(self).config(),
            final(self).webhook() == old(self).webhook(),
            final(self).logs_progress() == old(self).logs_progress(),
            final(self).pending_progress() == old(self).pending_progress(),
            final(self).last() == old(self).last(),
            final(self).busy() == old(self).busy(),
            exists|p: Result<Seq<AttendanceView>, Seq<char>>, f: Result<nat, Seq<char>>, c: Result<(), Seq<char>>|
                {
                    &&& final(self).calls() == old(self).calls() + #[trigger] session_calls(
                        old(self).config(),
                        old(self).webhook(),
                        p,
                        f,
                        c,
                    )
                    &&& r@ == sync_run(old(self).config(), started_at@, p, f, c)
                },
    {
        let ghost d = old(self).config();
        let ghost url = old(self).webhook();
        let ghost c0 = old(self).calls();
        let pulled = match client.pull_attendance() {
            Ok(v) => Ok(v),
            Err(e) => Err(e.message()),
        };
        let ghost p = pull_model(pulled);
        proof {
            self.calls@ = self.calls@.push(SyncCall::Pull(p));
        }
        match after_pull(&self.device, started_at, pulled) {
            SyncStep::Done(r) => {
                let ghost f: Result<nat, Seq<char>> = Err(seq![]);
                let ghost c: Result<(), Seq<char>> = Err(seq![]);
                assert(r@ == sync_run(self.config(), started_at@, p, f, c));
                assert(self.calls@ =~= c0 + session_calls(d, url, p, f, c));
                r
            },
            SyncStep::Clear { .. } => {
                assert(false);
                result(false, &self.device, 0, 0, false, started_at, String::new())
            },
            SyncStep::Forward { pulled, events } => {
                let forwarded = match self.hrms.forward_events(
                    self.webhook_url.as_str(),
                    &self.device,
                    events.as_slice(),
                ) {
                    Ok(w) => Ok(w),
                    Err(e) => Err(e.message()),
                };
                let ghost f = forward_model(forwarded);
                proof {
                    self.calls@ = self.calls@.push(
                        SyncCall::Forward(self.webhook_url@, self.device, crate::domain::event_views(events@), f),
                    );
                }
                match after_forward(&self.device, started_at, pulled, events.len(), forwarded) {
                    SyncStep::Done(r) => {
                        let ghost c: Result<(), Seq<char>> = Err(seq![]);
                        assert(r@ == sync_run(self.config(), started_at@, p, f, c));
                        assert(self.calls@ =~= c0 + session_calls(d, url, p, f, c));
                        r
                    },
                    SyncStep::Forward { .. } => {
                        assert(false);
                        result(false, &self.device, 0, 0, false, started_at, String::new())
                    },
                    SyncStep::Clear { pulled, forwarded, events } => {
                        let cleared = match client.clear_attendance() {
                            Ok(()) => Ok(()),
                            Err(e) => Err(e.message()),
                        };
                        let ghost c = clear_model(cleared);
                        proof {
                            self.calls@ = self.calls@.push(SyncCall::Clear(c));
                        }
                        let r = after_clear(&self.device, started_at, pulled, forwarded, events, cleared);
                        assert(r@ == sync_run(self.config(), started_at@, p, f, c));
                        assert(self.calls@ =~= c0 + session_calls(d, url, p, f, c));
                        r
                    },
                }
            },
        }
    }

    /// Connect, sync, disconnect.
    fn sync_once_locked(&mut self, started_at: &String) -> (r: SyncResult)
        ensures
            final(self).config() == old(self).config(),
            final(self).webhook() == old(self).webhook(),
            final(self).logs_progress() == old(self).logs_progress(),
            final(self).pending_progress() == old(self).pending_progress(),
            final(self).last() == old(self).last(),
            final(self).busy() == old(self).busy(),
            exists|
                k: Result<(), Seq<char>>,
                p: Result<Seq<AttendanceView>, Seq<char>>,
                f: Result<nat, Seq<char>>,
                c: Result<(), Seq<char>>,
            |
                {
                    &&& final(self).calls() == old(self).calls() + #[trigger] sync_calls(
                        old(self).config(),
                        old(self).webhook(),
                        k,
                        p,
                        f,
                        c,
                    )
                    &&& r@ == sync_run(old(self).config(), started_at@, read_outcome(k, p), f, c)
                },
    {
        let ghost d = old(self).config();
        let ghost url = old(self).webhook();
        let ghost c0 = old(self).calls();
        match self.connector.connect(&self.device) {
            Err(e) => {
                let m = e.message();
                let ghost k: Result<(), Seq<char>> = Err(m@);
                proof {
                    self.calls@ = self.calls@.push(SyncCall::Connect(self.device, k));
                }
                let r = result(false, &self.device, 0, 0, false, started_at, sanitize(m.as_str(), &self.device));
                let ghost p: Result<Seq<AttendanceView>, Seq<char>> = Err(seq![]);
                let ghost f: Result<nat, Seq<char>> = Err(seq![]);
                let ghost c: Result<(), Seq<char>> = Err(seq![]);
                assert(r@ == sync_run(self.config(), started_at@, read_outcome(k, p), f, c));
                assert(self.calls@ =~= c0 + sync_calls(d, url, k, p, f, c));
                r
            },
            Ok(client) => {
                let mut client = client;
                proof {
                    self.calls@ = self.calls@.push(SyncCall::Connect(self.device, Ok(())));
                }
                let ghost c1 = self.calls@;
                let r = self.sync_with_client(&mut client, started_at);
                client.disconnect();
                proof {
                    let c2 = self.calls@;
                    self.calls@ = self.calls@.push(SyncCall::Disconnect);
                    let (p, f, c) = choose|
                        p: Result<Seq<AttendanceView>, Seq<char>>,
                        f: Result<nat, Seq<char>>,
                        c: Result<(), Seq<char>>,
                    |
                        {
                            &&& c2 == c1 + #[trigger] session_calls(d, url, p, f, c)
                            &&& r@ == sync_run(d, started_at@, p, f, c)
                        };
                    let k: Result<(), Seq<char>> = Ok(());
                    assert(self.calls@ =~= c0 + sync_calls(d, url, k, p, f, c));
                    assert(r@ == sync_run(d, started_at@, read_outcome(k, p), f, c));
                }
                r
            },
        }
    }

    /// Run one sync attempt for this device, started at `started_at` (an
    /// RFC 3339 time the caller reads from the clock), and remember its
    /// result. The calls made are recorded with their answers and follow
    /// [`sync_calls`] (the device is cleared only after HRMS accepted the
    /// upload of what was pulled), and the result is what [`sync_run`] gives
    /// for those answers.
    pub fn sync_once(&mut self, started_at: String) -> (r: SyncResult)
        ensures
            exists|
                k: Result<(), Seq<char>>,
                p: Result<Seq<AttendanceView>, Seq<char>>,
                f: Result<nat, Seq<char>>,
                c: Result<(), Seq<char>>,
            |
                {
                    &&& final(self).calls() == old(self).calls() + #[trigger] sync_calls(
                        old(self).config(),
                        old(self).webhook(),
                        k,
                        p,
                        f,
                        c,
                    )
                    &&& r@ == sync_run(old(self).config(), started_at@, read_outcome(k, p), f, c)
                },
            final(self).last() == Some(r@),
            final(self).config() == old(self).config(),
            final(self).webhook() == old(self).webhook(),
            final(self).logs_progress() == old(self).logs_progress(),
            !final(self).busy(),
    {
        let mut line = String::from_str("sync start at ");
        push_str(&mut line, started_at.as_str());
        self.note(line);
        self.in_progress = true;
        let r = self.sync_once_locked(&started_at);
        self.in_progress = false;
        let mut done = String::from_str("sync done: ok=");
        push_str(&mut done, bool_text(r.ok));
        push_str(&mut done, " pulled=");
        push_dec(&mut done, r.pulled as u64);
        push_str(&mut done, " forwarded=");
        push_dec(&mut done, r.forwarded as u64);
        push_str(&mut done, " cleared=");
        push_str(&mut done, bool_text(r.device_attendance_cleared));
        push_str(&mut done, " message=\"");
        push_str(&mut done, r.message.as_str());
        push_str(&mut done, "\"");
        self.note(done);
        self.last_result = Some(copy_result(&r));
        r
    }
}

// ── Laws ─────────────────────────────────────────────────────────────────────

/// Safety rule: a sync clears the device only after the device was read,
/// the HRMS upload of its events succeeded, clearing was allowed for the
/// pulled count, and the clear itself succeeded; such a sync is reported ok.
pub proof fn law_clear_only_after_upload(
    d: BridgeDeviceConfig,
    started_at: Seq<char>,
    p: Result<Seq<AttendanceView>, Seq<char>>,
    f: Result<nat, Seq<char>>,
    c: Result<(), Seq<char>>,
)
    ensures
        sync_run(d, started_at, p, f, c).device_attendance_cleared ==> {
            &&& p is Ok
            &&& hrms_events(p->Ok_0, device_offset(d), EventTypeMode::PunchCode).len() > 0
            &&& f is Ok
            &&& clear_allowed(d, p->Ok_0.len())
            &&& c is Ok
            &&& sync_run(d, started_at, p, f, c).ok
        },
{
}

/// Safety rule, over the calls a sync makes: the device is cleared at most
/// once, and only right after an upload of the pulled records' events that
/// HRMS accepted, from a read that succeeded, with clearing allowed for the
/// pulled count; a sync that never connected, or whose read or upload
/// failed, never clears.
pub proof fn law_trace_clears_only_after_upload(
    d: BridgeDeviceConfig,
    url: Seq<char>,
    k: Result<(), Seq<char>>,
    p: Result<Seq<AttendanceView>, Seq<char>>,
    f: Result<nat, Seq<char>>,
    c: Result<(), Seq<char>>,
    i: int,
)
    requires
        0 <= i < sync_calls(d, url, k, p, f, c).len(),
        sync_calls(d, url, k, p, f, c)[i] is Clear,
    ensures
        k is Ok,
        p matches Ok(rs) && clear_allowed(d, rs.len()) && hrms_events(
            rs,
            device_offset(d),
            EventTypeMode::PunchCode,
        ).len() > 0,
        f is Ok,
        i == 3,
        sync_calls(d, url, k, p, f, c)[0] == SyncCall::Connect(d, Ok(())),
        sync_calls(d, url, k, p, f, c)[1] == SyncCall::Pull(p),
        sync_calls(d, url, k, p, f, c)[2] matches SyncCall::Forward(u, dev, ev, fr) && u == url && dev == d && fr is Ok && ev
            == hrms_events(p->Ok_0, device_offset(d), EventTypeMode::PunchCode),
        forall|j: int| 0 <= j < sync_calls(d, url, k, p, f, c).len() && j != i ==> !(#[trigger] sync_calls(
            d,
            url,
            k,
            p,
            f,
            c,
        )[j] is Clear),
{
    let t = sync_calls(d, url, k, p, f, c);
    match k {
        Err(m) => {
            assert(t =~= seq![SyncCall::Connect(d, Err(m))]);
        },
        Ok(()) => {
            let sc = session_calls(d, url, p, f, c);
            assert(t =~= seq![SyncCall::Connect(d, Ok(()))] + sc + seq![SyncCall::Disconnect]);
            match p {
                Err(_) => {
                    assert(sc =~= seq![SyncCall::Pull(p)]);
                },
                Ok(rs) => {
                    let ev = hrms_events(rs, device_offset(d), EventTypeMode::PunchCode);
                    if ev.len() == 0 {
                        assert(sc =~= seq![SyncCall::Pull(p)]);
                    } else {
                        match f {
                            Ok(_) => {
                                if clear_allowed(d, rs.len()) {
                                    assert(sc =~= seq![SyncCall::Pull(p), SyncCall::Forward(url, d, ev, f), SyncCall::Clear(c)]);
                                } else {
                                    assert(sc =~= seq![SyncCall::Pull(p), SyncCall::Forward(url, d, ev, f)]);
                                }
                            },
                            Err(_) => {
                                assert(sc =~= seq![SyncCall::Pull(p), SyncCall::Forward(url, d, ev, f)]);
                            },
                        }
                    }
                },
            }
        },
    }
}

/// A failed read or a failed upload is reported as a failure, with nothing
/// forwarded and nothing cleared.
pub proof fn law_failures_never_clear(
    d: BridgeDeviceConfig,
    started_at: Seq<char>,
    p: Result<Seq<AttendanceView>, Seq<char>>,
    f: Result<nat, Seq<char>>,
    c: Result<(), Seq<char>>,
)
    ensures
        p is Err ==> !sync_run(d, started_at, p, f, c).ok && sync_run(d, started_at, p, f, c).pulled
            == 0,
        !sync_run(d, started_at, p, f, c).ok ==> !sync_run(
            d,
            started_at,
            p,
            f,
            c,
        ).device_attendance_cleared && sync_run(d, started_at, p, f, c).forwarded == 0,
        (p is Ok && f is Err && hrms_events(p->Ok_0, device_offset(d), EventTypeMode::PunchCode).len()
            > 0) ==> !sync_run(d, started_at, p, f, c).ok,
{
}

/// A read with nothing to forward never contacts HRMS: the result is the
/// same whatever HRMS or the clear would have answered.
pub proof fn law_nothing_to_forward(
    d: BridgeDeviceConfig,
    started_at: Seq<char>,
    rs: Seq<AttendanceView>,
    f1: Result<nat, Seq<char>>,
    c1: Result<(), Seq<char>>,
    f2: Result<nat, Seq<char>>,
    c2: Result<(), Seq<char>>,
)
    requires
        hrms_events(rs, device_offset(d), EventTypeMode::PunchCode).len() == 0,
    ensures
        sync_run(d, started_at, Ok(rs), f1, c1) == sync_run(d, started_at, Ok(rs), f2, c2),
        sync_run(d, started_at, Ok(rs), f1, c1).ok,
        sync_run(d, started_at, Ok(rs), f1, c1).forwarded == 0,
        !sync_run(d, started_at, Ok(rs), f1, c1).device_attendance_cleared,
{
}

/// Every result belongs to the device it synced and carries the start time
/// it was given.
pub proof fn law_result_identifies_run(
    d: BridgeDeviceConfig,
    started_at: Seq<char>,
    p: Result<Seq<AttendanceView>, Seq<char>>,
    f: Result<nat, Seq<char>>,
    c: Result<(), Seq<char>>,
)
    ensures
        sync_run(d, started_at, p, f, c).device_code == d.device_code@,
        sync_run(d, started_at, p, f, c).started_at == started_at,
{
}


// ── Choosing devices for a one-shot sync ─────────────────────────────────────

/// The positions of the devices with this code.
pub open spec fn positions_with_code(ds: Seq<BridgeDeviceConfig>, code: Seq<char>) -> Seq<int>
    decreases ds.len(),
{
    if ds.len() == 0 {
        seq![]
    } else if ds.last().device_code@ == code {
        positions_with_code(ds.drop_last(), code).push(ds.len() - 1)
    } else {
        positions_with_code(ds.drop_last(), code)
    }
}

/// The devices a one-shot sync runs: all of them, or those with the chosen
/// code (an error naming the available codes when there are none).
pub fn select_targets(devices: &Vec<BridgeDeviceConfig>, selected: Option<&str>) -> (r: Result<Vec<usize>, String>)
    ensures
        match selected {
            None => r matches Ok(v) && v@.len() == devices@.len() && forall|k: int|
                0 <= k < v@.len() ==> v@[k] == k,
            Some(code) => {
                let p = positions_with_code(devices@, code@);
                if p.len() == 0 {
                    r matches Err(m) && m@ == "device '"@ + code@ + "' not found in config. Available: "@
                        + crate::doctor::joined_codes(devices@)
                } else {
                    r matches Ok(v) && v@.len() == p.len() && forall|k: int| 0 <= k < v@.len() ==> v@[k] == p[k]
                }
            },
        },
{
    let mut v: Vec<usize> = Vec::new();
    let mut i: usize = 0;
    while i < devices.len()
        invariant
            i <= devices.len(),
            selected is None ==> (v@.len() == i && forall|k: int| 0 <= k < v@.len() ==> v@[k] == k),
            selected matches Some(code) ==> ({
                let p = positions_with_code(devices@.take(i as int), code@);
                v@.len() == p.len() && forall|k: int| 0 <= k < v@.len() ==> v@[k] == p[k]
            }),
        decreases devices.len() - i,
    {
        assert(devices@.take(i + 1).drop_last() =~= devices@.take(i as int));
        match selected {
            None => v.push(i),
            Some(code) => {
                if crate::text::str_eq(devices[i].device_code.as_str(), code) {
                    v.push(i);
                }
            },
        }
        i += 1;
    }
    assert(devices@.take(i as int) =~= devices@);
    match selected {
        None => Ok(v),
        Some(code) => {
            if v.len() > 0 {
                return Ok(v);
            }
            let mut m = String::from_str("device '");
            push_str(&mut m, code);
            push_str(&mut m, "' not found in config. Available: ");
            let ds = devices;
            if ds.len() > 0 {
                push_str(&mut m, ds[0].device_code.as_str());
                assert(ds@.take(1).drop_last() =~= Seq::<BridgeDeviceConfig>::empty());
                let mut k: usize = 1;
                while k < ds.len()
                    invariant
                        1 <= k <= ds.len(),
                        m@ == "device '"@ + code@ + "' not found in config. Available: "@
                            + crate::doctor::joined_codes(ds@.take(k as int)),
                    decreases ds.len() - k,
                {
                    push_str(&mut m, ", ");
                    push_str(&mut m, ds[k].device_code.as_str());
                    assert(ds@.take(k + 1).drop_last() =~= ds@.take(k as int));
                    k += 1;
                }
                assert(ds@.take(k as int) =~= ds@);
            }
            Err(m)
        },
    }
}

} // verus!
