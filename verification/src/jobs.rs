//! HRMS jobs: reading the pending-jobs reply, choosing the device and the
//! action for each job, and the completion reported back. The poller keeps
//! the bridge outbound-only; the HTTP calls and the timer stay with the
//! caller.

use vstd::prelude::*;

use crate::config::{BridgeConfig, BridgeDeviceConfig};
use crate::domain::{DeviceUser, FingerTemplate, FingerTemplatePayload, payload_of};
use crate::zk_client::extends;
use crate::hrms::{JobCompletion, truncated_error};
use crate::json::{json_get, json_str, json_u64, Json};
use crate::ports::{device_error_text, DeviceClient, DeviceConnector, DeviceError, HrmsError};
use crate::text::{push_dec, push_str, str_eq};

verus! {

/// A job HRMS asks the bridge to run.
#[derive(Debug)]
pub struct PendingJob {
    pub id: String,
    pub job_type: String,
    pub device_code: String,
    pub payload: Option<Json>,
}

pub struct JobView {
    pub id: Seq<char>,
    pub job_type: Seq<char>,
    pub device_code: Seq<char>,
    pub payload: Option<Json>,
}

impl View for PendingJob {
    type V = JobView;

    open spec fn view(&self) -> JobView {
        JobView {
            id: self.id@,
            job_type: self.job_type@,
            device_code: self.device_code@,
            payload: self.payload,
        }
    }
}

// ── The pending-jobs reply ───────────────────────────────────────────────────

/// A job as HRMS sends it: an object with string `id`, `type` and
/// `deviceCode`, and any `payload` (`null` or missing meaning none).
pub open spec fn job_of(item: Json) -> Option<JobView> {
    match (
        json_str(json_get(item, "id"@)),
        json_str(json_get(item, "type"@)),
        json_str(json_get(item, "deviceCode"@)),
    ) {
        (Some(id), Some(t), Some(d)) => Some(
            JobView {
                id,
                job_type: t,
                device_code: d,
                payload: match json_get(item, "payload"@) {
                    Some(Json::Null) => None,
                    p => p,
                },
            },
        ),
        _ => None,
    }
}

/// Every item is a job.
pub open spec fn all_jobs(items: Seq<Json>) -> bool {
    forall|i: int| 0 <= i < items.len() ==> (#[trigger] job_of(items[i])) is Some
}

/// The jobs read from a list of items that all hold one.
pub open spec fn jobs_of(items: Seq<Json>) -> Seq<JobView> {
    items.map_values(|j: Json| job_of(j)->0)
}

/// The jobs of a reply: the list under `data` (or the whole reply), every
/// item a job.
pub open spec fn jobs_in(reply: Json) -> Result<Seq<JobView>, Seq<char>> {
    let list = match json_get(reply, "data"@) {
        Some(d) => d,
        None => reply,
    };
    match list {
        Json::Array { items, .. } => if all_jobs(items@) {
            Ok(jobs_of(items@))
        } else {
            Err("pending jobs payload is invalid: each job needs a string `id`, `type` and `deviceCode`"@)
        },
        _ => Err("pending jobs payload is invalid: expected a list of jobs"@),
    }
}

pub open spec fn job_views(s: Seq<PendingJob>) -> Seq<JobView> {
    s.map_values(|j: PendingJob| j@)
}

fn job_from(item: Json) -> (r: Option<PendingJob>)
    ensures
        match job_of(item) {
            Some(v) => r matches Some(j) && j@ == v,
            None => r is None,
        },
{
    let id = match item.get("id") {
        Some(v) => match v.as_str() {
            Some(s) => String::from_str(s),
            None => {
                return None;
            },
        },
        None => {
            return None;
        },
    };
    let job_type = match item.get("type") {
        Some(v) => match v.as_str() {
            Some(s) => String::from_str(s),
            None => {
                return None;
            },
        },
        None => {
            return None;
        },
    };
    let device_code = match item.get("deviceCode") {
        Some(v) => match v.as_str() {
            Some(s) => String::from_str(s),
            None => {
                return None;
            },
        },
        None => {
            return None;
        },
    };
    let payload = match item.into_member("payload") {
        Some(p) => if p.is_null() {
            None
        } else {
            Some(p)
        },
        None => None,
    };
    Some(PendingJob { id, job_type, device_code, payload })
}

/// Reads the jobs from a pending-jobs reply.
pub fn parse_jobs_response(reply: Json) -> (r: Result<Vec<PendingJob>, HrmsError>)
    ensures
        match r {
            Ok(jobs) => jobs_in(reply) == Ok::<Seq<JobView>, Seq<char>>(job_views(jobs@)),
            Err(HrmsError::Message(m)) => jobs_in(reply) == Err::<Seq<JobView>, Seq<char>>(m@),
            Err(HrmsError::NotImplemented) => false,
        },
{
    let ghost orig = reply;
    let has_data = reply.get("data").is_some();
    let list = if has_data {
        match reply.into_member("data") {
            Some(d) => d,
            None => {
                return Err(HrmsError::Message(String::from_str("pending jobs payload is invalid: expected a list of jobs")));
            },
        }
    } else {
        reply
    };
    let ghost lv = list;
    let items = match list.into_items() {
        Some(items) => items,
        None => {
            return Err(HrmsError::Message(String::from_str("pending jobs payload is invalid: expected a list of jobs")));
        },
    };
    let ghost iv = items@;
    assert(lv == (match json_get(orig, "data"@) {
        Some(d) => d,
        None => orig,
    }));
    assert(lv matches Json::Array { items, .. } && items@ == iv);
    let ghost msg = "pending jobs payload is invalid: each job needs a string `id`, `type` and `deviceCode`"@;
    assert(jobs_in(orig) == (if all_jobs(iv) {
        Ok(jobs_of(iv))
    } else {
        Err(msg)
    }));
    let mut rest = items;
    let mut jobs: Vec<PendingJob> = Vec::new();
    let ghost mut i: int = 0;
    assert(iv.skip(0) =~= iv);
    while rest.len() > 0
        invariant
            orig == reply,
            jobs_in(orig) == (if all_jobs(iv) {
                Ok(jobs_of(iv))
            } else {
                Err(msg)
            }),
            msg == "pending jobs payload is invalid: each job needs a string `id`, `type` and `deviceCode`"@,
            0 <= i <= iv.len(),
            rest@ == iv.skip(i),
            rest.len() == iv.len() - i,
            forall|k: int| 0 <= k < i ==> (#[trigger] job_of(iv[k])) is Some,
            job_views(jobs@) == jobs_of(iv.take(i)),
        decreases rest.len(),
    {
        let item = rest.remove(0);
        proof {
            assert(item == iv[i]);
            assert(iv.skip(i).drop_first() =~= iv.skip(i + 1));
        }
        match job_from(item) {
            Some(j) => {
                let ghost old_jobs = jobs@;
                let ghost jv = j@;
                jobs.push(j);
                proof {
                    assert(jv == job_of(iv[i])->0);
                    assert(job_views(jobs@) =~= job_views(old_jobs).push(jv));
                    assert(iv.take(i + 1) =~= iv.take(i).push(iv[i]));
                    assert(jobs_of(iv.take(i + 1)) =~= jobs_of(iv.take(i)).push(jv));
                    i = i + 1;
                }
            },
            None => {
                proof {
                    assert(job_of(iv[i]) is None);
                }
                return Err(
                    HrmsError::Message(
                        String::from_str(
                            "pending jobs payload is invalid: each job needs a string `id`, `type` and `deviceCode`",
                        ),
                    ),
                );
            },
        }
    }
    assert(iv.take(i) =~= iv);
    assert(all_jobs(iv));
    Ok(jobs)
}

// ── Running a job ────────────────────────────────────────────────────────────

/// The position of the device with this code (the last one, as a map keyed
/// by code keeps it).
pub open spec fn device_index(devices: Seq<BridgeDeviceConfig>, code: Seq<char>) -> Option<int>
    decreases devices.len(),
{
    if devices.len() == 0 {
        None
    } else if devices.last().device_code@ == code {
        Some(devices.len() - 1)
    } else {
        device_index(devices.drop_last(), code)
    }
}

proof fn lemma_device_index(devices: Seq<BridgeDeviceConfig>, code: Seq<char>)
    ensures
        device_index(devices, code) matches Some(i) ==> 0 <= i < devices.len() && devices[i].device_code@
            == code,
    decreases devices.len(),
{
    if devices.len() > 0 && devices.last().device_code@ != code {
        lemma_device_index(devices.drop_last(), code);
    }
}

fn find_device(devices: &Vec<BridgeDeviceConfig>, code: &str) -> (r: Option<usize>)
    ensures
        match r {
            Some(i) => device_index(devices@, code@) == Some(i as int) && i < devices.len(),
            None => device_index(devices@, code@) is None,
        },
{
    let mut n = devices.len();
    assert(devices@.take(n as int) =~= devices@);
    while n > 0
        invariant
            n <= devices.len(),
            device_index(devices@, code@) == device_index(devices@.take(n as int), code@),
        decreases n,
    {
        let ghost t = devices@.take(n as int);
        assert(t.drop_last() =~= devices@.take(n - 1));
        if str_eq(devices[n - 1].device_code.as_str(), code) {
            return Some(n - 1);
        }
        n -= 1;
    }
    None
}

/// A field of a template payload: a number within `max`, or the reason it
/// is missing or unreadable.
pub open spec fn number_field(j: Json, key: Seq<char>, max: u64) -> Result<u64, Seq<char>> {
    match json_get(j, key) {
        None => Err("missing field `"@ + key + "`"@),
        Some(v) => match json_u64(Some(v)) {
            Some(n) => if n <= max {
                Ok(n)
            } else {
                Err("invalid value for field `"@ + key + "`"@)
            },
            None => Err("invalid type for field `"@ + key + "`"@),
        },
    }
}

/// A text field of a template payload.
pub open spec fn text_field(j: Json, key: Seq<char>) -> Result<Seq<char>, Seq<char>> {
    match json_get(j, key) {
        None => Err("missing field `"@ + key + "`"@),
        Some(v) => match json_str(Some(v)) {
            Some(s) => Ok(s),
            None => Err("invalid type for field `"@ + key + "`"@),
        },
    }
}

/// A template payload read from JSON: `uid`, `fid`, `userId`, `name` and
/// `templateBytes`, checked in that order.
pub open spec fn payload_fields(j: Json) -> Result<(u32, u8, Seq<char>, Seq<char>, Seq<char>), Seq<char>> {
    if !(j is Object) {
        Err("invalid type: expected a template payload object"@)
    } else {
        match number_field(j, "uid"@, 0xffff_ffff) {
            Err(e) => Err(e),
            Ok(uid) => match number_field(j, "fid"@, 255) {
                Err(e) => Err(e),
                Ok(fid) => match text_field(j, "userId"@) {
                    Err(e) => Err(e),
                    Ok(user_id) => match text_field(j, "name"@) {
                        Err(e) => Err(e),
                        Ok(name) => match text_field(j, "templateBytes"@) {
                            Err(e) => Err(e),
                            Ok(t) => Ok((uid as u32, fid as u8, user_id, name, t)),
                        },
                    },
                },
            },
        }
    }
}

fn read_number(j: &Json, key: &str, max: u64) -> (r: Result<u64, String>)
    ensures
        match r {
            Ok(n) => number_field(*j, key@, max) == Ok::<u64, Seq<char>>(n),
            Err(m) => number_field(*j, key@, max) == Err::<u64, Seq<char>>(m@),
        },
{
    match j.get(key) {
        None => {
            let mut m = String::from_str("missing field `");
            push_str(&mut m, key);
            push_str(&mut m, "`");
            Err(m)
        },
        Some(v) => match v.as_u64() {
            Some(n) => if n <= max {
                Ok(n)
            } else {
                let mut m = String::from_str("invalid value for field `");
                push_str(&mut m, key);
                push_str(&mut m, "`");
                Err(m)
            },
            None => {
                let mut m = String::from_str("invalid type for field `");
                push_str(&mut m, key);
                push_str(&mut m, "`");
                Err(m)
            },
        },
    }
}

fn read_text(j: &Json, key: &str) -> (r: Result<String, String>)
    ensures
        match r {
            Ok(s) => text_field(*j, key@) == Ok::<Seq<char>, Seq<char>>(s@),
            Err(m) => text_field(*j, key@) == Err::<Seq<char>, Seq<char>>(m@),
        },
{
    match j.get(key) {
        None => {
            let mut m = String::from_str("missing field `");
            push_str(&mut m, key);
            push_str(&mut m, "`");
            Err(m)
        },
        Some(v) => match v.as_str() {
            Some(s) => Ok(String::from_str(s)),
            None => {
                let mut m = String::from_str("invalid type for field `");
                push_str(&mut m, key);
                push_str(&mut m, "`");
                Err(m)
            },
        },
    }
}

/// Reads a fingerprint template payload from a job's JSON.
pub fn payload_from_json(j: &Json) -> (r: Result<FingerTemplatePayload, String>)
    ensures
        match r {
            Ok(p) => payload_fields(*j) == Ok::<(u32, u8, Seq<char>, Seq<char>, Seq<char>), Seq<char>>(
                (p.uid, p.fid, p.user_id@, p.name@, p.template_bytes@),
            ),
            Err(m) => payload_fields(*j) == Err::<(u32, u8, Seq<char>, Seq<char>, Seq<char>), Seq<char>>(
                m@,
            ),
        },
{
    match j {
        Json::Object { .. } => {},
        _ => {
            return Err(String::from_str("invalid type: expected a template payload object"));
        },
    }
    proof {
        reveal_strlit("uid");
        reveal_strlit("fid");
    }
    let uid = match read_number(j, "uid", 0xffff_ffff) {
        Ok(n) => n,
        Err(e) => {
            return Err(e);
        },
    };
    let fid = match read_number(j, "fid", 255) {
        Ok(n) => n,
        Err(e) => {
            return Err(e);
        },
    };
    let user_id = match read_text(j, "userId") {
        Ok(s) => s,
        Err(e) => {
            return Err(e);
        },
    };
    let name = match read_text(j, "name") {
        Ok(s) => s,
        Err(e) => {
            return Err(e);
        },
    };
    let template_bytes = match read_text(j, "templateBytes") {
        Ok(s) => s,
        Err(e) => {
            return Err(e);
        },
    };
    Ok(FingerTemplatePayload { uid: uid as u32, fid: fid as u8, user_id, name, template_bytes })
}

/// What a job comes to before any device is contacted.
pub enum JobPlan {
    /// It fails at once with this message.
    Fail(Seq<char>),
    /// Pull templates from the device at this position.
    PullTemplates(int),
    /// Push a user and template to the device at this position.
    PushUser(int),
}

pub open spec fn job_plan(job: JobView, devices: Seq<BridgeDeviceConfig>) -> JobPlan {
    match device_index(devices, job.device_code) {
        None => JobPlan::Fail("device '"@ + job.device_code + "' is not configured on this bridge"@),
        Some(d) => if job.job_type == "PULL_TEMPLATES"@ {
            JobPlan::PullTemplates(d)
        } else if job.job_type == "PUSH_USER"@ {
            match job.payload {
                None => JobPlan::Fail("PUSH_USER payload is required"@),
                Some(p) => match payload_fields(p) {
                    Err(e) => JobPlan::Fail("PUSH_USER payload is invalid: "@ + e),
                    Ok((_, _, _, _, t)) => if crate::domain::base64_decoded(t) is None {
                        JobPlan::Fail("templateBytes is invalid base64"@)
                    } else {
                        JobPlan::PushUser(d)
                    },
                },
            }
        } else {
            JobPlan::Fail("unknown job type '"@ + job.job_type + "'"@)
        },
    }
}

/// A failed completion carrying `m` (cut to 300 bytes).
pub open spec fn failed_with(c: JobCompletion, m: Seq<char>) -> bool {
    &&& !c.ok
    &&& c.error matches Some(e) && e@ == truncated_error(m)
    &&& c.templates is None
}

/// The completion of a template pull, given what the device returned.
pub open spec fn pull_completed(c: JobCompletion, result: Result<Seq<FingerTemplate>, DeviceError>) -> bool {
    match result {
        Ok(ts) => {
            &&& c.ok
            &&& c.error is None
            &&& c.templates matches Some(ps) && ps@.len() == ts.len() && forall|i: int|
                0 <= i < ts.len() ==> payload_of(#[trigger] ts[i], ps@[i])
        },
        Err(e) => failed_with(c, device_error_text(e)),
    }
}

/// The completion of a template pull.
pub fn pull_completion(result: Result<Vec<FingerTemplate>, DeviceError>) -> (c: JobCompletion)
    ensures
        pull_completed(
            c,
            match result {
                Ok(ts) => Ok(ts@),
                Err(e) => Err(e),
            },
        ),
{
    match result {
        Ok(templates) => {
            let mut out: Vec<FingerTemplatePayload> = Vec::new();
            let mut i: usize = 0;
            while i < templates.len()
                invariant
                    i <= templates.len(),
                    out.len() == i,
                    forall|k: int| 0 <= k < i ==> payload_of(#[trigger] templates@[k], out@[k]),
                decreases templates.len() - i,
            {
                out.push(templates[i].to_payload());
                i += 1;
            }
            JobCompletion::templates(out)
        },
        Err(e) => JobCompletion::error(e.message()),
    }
}

/// The completion of a user push, given what the device returned.
pub open spec fn push_completed(c: JobCompletion, result: Result<(), DeviceError>) -> bool {
    match result {
        Ok(()) => c.ok && c.error is None && c.templates is None,
        Err(e) => failed_with(c, device_error_text(e)),
    }
}

pub fn push_completion(result: Result<(), DeviceError>) -> (c: JobCompletion)
    ensures
        push_completed(c, result),
{
    match result {
        Ok(()) => JobCompletion::ok(),
        Err(e) => JobCompletion::error(e.message()),
    }
}

/// One call a job makes to a device, with its answer.
pub enum JobCall {
    /// Connecting to this device.
    Connect(BridgeDeviceConfig, Result<(), DeviceError>),
    /// Reading the device's templates.
    GetTemplates(Result<Seq<FingerTemplate>, DeviceError>),
    /// Writing a user and a template to the device.
    PushUserTemplate(DeviceUser, FingerTemplate, Result<(), DeviceError>),
    /// Closing the device session.
    Disconnect,
}

/// A template read with the templates as a sequence.
pub open spec fn templates_view(r: Result<Vec<FingerTemplate>, DeviceError>) -> Result<Seq<FingerTemplate>, DeviceError> {
    match r {
        Ok(v) => Ok(v@),
        Err(e) => Err(e),
    }
}

/// Every device call jobs have made, in order.
pub struct JobTrace {
    calls: Ghost<Seq<JobCall>>,
}

impl JobTrace {
    pub closed spec fn calls(&self) -> Seq<JobCall> {
        self.calls@
    }

    /// A trace with no calls yet.
    pub fn new() -> (t: Self)
        ensures
            t.calls().len() == 0,
    {
        JobTrace { calls: Ghost(Seq::empty()) }
    }
}

/// The device calls of a job run on `device`: connect; with a connection,
/// the job's one device operation (whose answer `answered` judges the
/// completion by) and the disconnect; without one, a failure with the
/// connection's message.
pub open spec fn device_run(
    t: Seq<JobCall>,
    device: BridgeDeviceConfig,
    c: JobCompletion,
    answered: spec_fn(JobCall) -> bool,
) -> bool {
    &&& t.len() >= 1
    &&& t[0] matches JobCall::Connect(dev, k) && dev == device && match k {
        Err(e) => failed_with(c, device_error_text(e)) && t.len() == 1,
        Ok(()) => t.len() == 3 && answered(t[1]) && t[2] is Disconnect,
    }
}

/// The template pull's answer decides the completion.
pub open spec fn pulled_into(c: JobCompletion) -> spec_fn(JobCall) -> bool {
    |x: JobCall| x matches JobCall::GetTemplates(res) && pull_completed(c, res)
}

/// The push's answer decides the completion.
pub open spec fn pushed_into(c: JobCompletion) -> spec_fn(JobCall) -> bool {
    |x: JobCall| x matches JobCall::PushUserTemplate(_, _, res) && push_completed(c, res)
}

/// Runs one job against the configured devices. A job that names no
/// configured device, an unknown type, or a missing or unreadable payload
/// fails before any device is contacted; otherwise the completion reports
/// what the device did (a failed connection is a failure with its message).
pub fn execute_job(
    job: &PendingJob,
    devices: &Vec<BridgeDeviceConfig>,
    connector: &dyn DeviceConnector,
    trace: &mut JobTrace,
) -> (c: JobCompletion)
    ensures
        extends(old(trace).calls(), final(trace).calls()),
        ({
            let t = final(trace).calls().skip(old(trace).calls().len() as int);
            match job_plan(job@, devices@) {
                JobPlan::Fail(m) => t.len() == 0 && if m == "templateBytes is invalid base64"@ {
                    !c.ok && c.error is Some && c.templates is None
                } else {
                    failed_with(c, m)
                },
                JobPlan::PullTemplates(i) => device_run(t, devices@[i], c, pulled_into(c)),
                JobPlan::PushUser(i) => device_run(t, devices@[i], c, pushed_into(c)),
            }
        }),
{
    let ghost t0 = trace.calls@;
    assert(trace.calls@.skip(t0.len() as int) =~= Seq::<JobCall>::empty());
    proof {
        reveal_strlit("PULL_TEMPLATES");
        reveal_strlit("PUSH_USER");
        lemma_device_index(devices@, job.device_code@);
    }
    let d = match find_device(devices, job.device_code.as_str()) {
        Some(d) => d,
        None => {
            let mut m = String::from_str("device '");
            push_str(&mut m, job.device_code.as_str());
            push_str(&mut m, "' is not configured on this bridge");
            return JobCompletion::error(m);
        },
    };
    let device = &devices[d];
    if str_eq(job.job_type.as_str(), "PULL_TEMPLATES") {
        match connector.connect(device) {
            Err(e) => {
                proof {
                    trace.calls@ = trace.calls@.push(JobCall::Connect(*device, Err(e)));
                    assert(trace.calls@.skip(t0.len() as int) =~= seq![JobCall::Connect(*device, Err(e))]);
                }
                JobCompletion::error(e.message())
            },
            Ok(client) => {
                let mut client = client;
                let result = client.get_templates();
                let ghost res = templates_view(result);
                let c = pull_completion(result);
                client.disconnect();
                proof {
                    let x = seq![JobCall::Connect(*device, Ok(())), JobCall::GetTemplates(res), JobCall::Disconnect];
                    trace.calls@ = trace.calls@ + x;
                    assert(trace.calls@.skip(t0.len() as int) =~= x);
                    assert(pulled_into(c)(x[1]));
                }
                c
            },
        }
    } else if str_eq(job.job_type.as_str(), "PUSH_USER") {
        let p = match &job.payload {
            Some(p) => p,
            None => {
                return JobCompletion::error(String::from_str("PUSH_USER payload is required"));
            },
        };
        let payload = match payload_from_json(p) {
            Ok(payload) => payload,
            Err(e) => {
                let mut m = String::from_str("PUSH_USER payload is invalid: ");
                push_str(&mut m, e.as_str());
                return JobCompletion::error(m);
            },
        };
        let user = payload.user();
        let finger = match payload.decode() {
            Ok(f) => f,
            Err(e) => {
                return JobCompletion::error(e);
            },
        };
        match connector.connect(device) {
            Err(e) => {
                proof {
                    trace.calls@ = trace.calls@.push(JobCall::Connect(*device, Err(e)));
                    assert(trace.calls@.skip(t0.len() as int) =~= seq![JobCall::Connect(*device, Err(e))]);
                }
                JobCompletion::error(e.message())
            },
            Ok(client) => {
                let mut client = client;
                let result = client.push_user_template(&user, &finger);
                let ghost res = result;
                let c = push_completion(result);
                client.disconnect();
                proof {
                    let x = seq![
                        JobCall::Connect(*device, Ok(())),
                        JobCall::PushUserTemplate(user, finger, res),
                        JobCall::Disconnect,
                    ];
                    trace.calls@ = trace.calls@ + x;
                    assert(trace.calls@.skip(t0.len() as int) =~= x);
                    assert(pushed_into(c)(x[1]));
                }
                c
            },
        }
    } else {
        let mut m = String::from_str("unknown job type '");
        push_str(&mut m, job.job_type.as_str());
        push_str(&mut m, "'");
        JobCompletion::error(m)
    }
}

/// The token the poller authenticates with: the configured HRMS API token,
/// else the first device's API key.
pub open spec fn poll_token(cfg: BridgeConfig) -> Option<Seq<char>> {
    match cfg.hrms_api_token {
        Some(t) => Some(t@),
        None => if cfg.devices@.len() > 0 {
            Some(cfg.devices@[0].api_key@)
        } else {
            None
        },
    }
}

pub fn job_poll_token(cfg: &BridgeConfig) -> (r: Option<String>)
    ensures
        match r {
            Some(t) => poll_token(*cfg) == Some(t@),
            None => poll_token(*cfg) is None,
        },
{
    match &cfg.hrms_api_token {
        Some(t) => Some(t.clone()),
        None => if cfg.devices.len() > 0 {
            Some(cfg.devices[0].api_key.clone())
        } else {
            None
        },
    }
}

/// How the poller's log reports a completion: `ok`, or `FAILED: ` and the
/// error.
pub open spec fn outcome_text(c: JobCompletion) -> Seq<char> {
    if c.ok {
        "ok"@
    } else {
        "FAILED: "@ + match c.error {
            Some(e) => e@,
            None => "unknown error"@,
        }
    }
}

pub fn job_outcome(c: &JobCompletion) -> (r: String)
    ensures
        r@ == outcome_text(*c),
{
    if c.ok {
        String::from_str("ok")
    } else {
        let mut m = String::from_str("FAILED: ");
        match &c.error {
            Some(e) => push_str(&mut m, e.as_str()),
            None => push_str(&mut m, "unknown error"),
        }
        m
    }
}

} // verus!
