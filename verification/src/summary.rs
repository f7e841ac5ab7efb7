//! One-line summaries shown by the dashboard and the service manager: the
//! most recent sync across devices, how long ago it was, and the bridge's
//! row among the running services.

use vstd::prelude::*;

use crate::domain::{copy_result, SyncResult, SyncResultView};
use crate::services::{ServiceKind, ServiceStatus};
use crate::text::{chars_le, chars_of, dec, push_dec, push_str, str_eq, text_le};

verus! {

/// How long ago something happened, from the seconds since then.
pub open spec fn ago_text(secs: int) -> Seq<char> {
    if secs < 0 {
        "just now"@
    } else if secs < 60 {
        dec(secs as nat) + "s ago"@
    } else if secs < 3600 {
        dec((secs / 60) as nat) + "m ago"@
    } else if secs < 86400 {
        dec((secs / 3600) as nat) + "h ago"@
    } else {
        dec((secs / 86400) as nat) + "d ago"@
    }
}

pub fn ago(secs: i64) -> (r: String)
    ensures
        r@ == ago_text(secs as int),
{
    let mut s = String::new();
    if secs < 0 {
        return String::from_str("just now");
    } else if secs < 60 {
        push_dec(&mut s, secs as u64);
        push_str(&mut s, "s ago");
    } else if secs < 3600 {
        push_dec(&mut s, (secs / 60) as u64);
        push_str(&mut s, "m ago");
    } else if secs < 86400 {
        push_dec(&mut s, (secs / 3600) as u64);
        push_str(&mut s, "h ago");
    } else {
        push_dec(&mut s, (secs / 86400) as u64);
        push_str(&mut s, "d ago");
    }
    proof {
        reveal_strlit("");
    }
    s
}

/// The newest of the stored results (by start time; the earlier one wins a
/// tie), from position `i` on, given the best so far.
pub open spec fn newest_from(rs: Seq<Option<SyncResultView>>, i: int, best: Option<SyncResultView>) -> Option<SyncResultView>
    decreases rs.len() - i,
{
    if i < 0 || i >= rs.len() {
        best
    } else {
        let next = match rs[i] {
            None => best,
            Some(r) => match best {
                None => Some(r),
                Some(b) => if text_le(r.started_at, b.started_at) {
                    best
                } else {
                    Some(r)
                },
            },
        };
        newest_from(rs, i + 1, next)
    }
}

pub open spec fn result_views(rs: Seq<Option<SyncResult>>) -> Seq<Option<SyncResultView>> {
    rs.map_values(|o: Option<SyncResult>| match o {
        Some(r) => Some(r@),
        None => None,
    })
}

/// The most recent of the devices' stored results.
pub fn newest_result(results: &Vec<Option<SyncResult>>) -> (r: Option<SyncResult>)
    ensures
        match r {
            Some(x) => newest_from(result_views(results@), 0, None) == Some(x@),
            None => newest_from(result_views(results@), 0, None) is None,
        },
{
    let ghost rv = result_views(results@);
    let mut best: Option<SyncResult> = None;
    let mut i: usize = 0;
    while i < results.len()
        invariant
            i <= results.len(),
            rv == result_views(results@),
            newest_from(rv, 0, None) == newest_from(
                rv,
                i as int,
                match best {
                    Some(b) => Some(b@),
                    None => None,
                },
            ),
        decreases results.len() - i,
    {
        assert(rv[i as int] == match results@[i as int] {
            Some(x) => Some(x@),
            None => None,
        });
        match &results[i] {
            None => {},
            Some(x) => {
                let replace = match &best {
                    None => true,
                    Some(b) => {
                        let a = chars_of(x.started_at.as_str());
                        let c = chars_of(b.started_at.as_str());
                        !chars_le(a.as_slice(), c.as_slice())
                    },
                };
                if replace {
                    best = Some(copy_result(x));
                }
            },
        }
        i += 1;
    }
    best
}

/// What the configuration looks like to the summary.
#[derive(Debug, Clone, Copy, PartialEq, Eq)]
pub enum ConfigState {
    Missing,
    Invalid,
    /// Loaded, with this many devices.
    Devices(usize),
}

/// The dashboard's sync line: a hint when nothing is configured, else the
/// newest result and how long ago it started (`None` when that time cannot
/// be read).
pub open spec fn sync_summary_text(cfg: ConfigState, latest: Option<SyncResultView>, ago_secs: Option<int>) -> Seq<char> {
    match cfg {
        ConfigState::Missing => "no config yet — type setup to connect your device and HRMS"@,
        ConfigState::Invalid => "config invalid — type setup to reconfigure"@,
        ConfigState::Devices(n) => if n == 0 {
            "no devices configured — type setup to add one"@
        } else {
            match latest {
                None => dec(n as nat) + " device(s) configured · no sync yet — press s to start the bridge"@,
                Some(r) => "last sync "@ + (if r.ok {
                    "✓"@
                } else {
                    "✗"@
                }) + " "@ + r.device_code + " · pulled "@ + dec(r.pulled) + " · forwarded "@ + dec(r.forwarded)
                    + " · "@ + match ago_secs {
                    Some(s) => ago_text(s),
                    None => "time unknown"@,
                },
            }
        },
    }
}

pub fn sync_summary(cfg: ConfigState, latest: &Option<SyncResult>, ago_secs: Option<i64>) -> (r: String)
    ensures
        r@ == sync_summary_text(
            cfg,
            match latest {
                Some(x) => Some(x@),
                None => None,
            },
            match ago_secs {
                Some(s) => Some(s as int),
                None => None,
            },
        ),
{
    match cfg {
        ConfigState::Missing => String::from_str("no config yet — type setup to connect your device and HRMS"),
        ConfigState::Invalid => String::from_str("config invalid — type setup to reconfigure"),
        ConfigState::Devices(n) => {
            if n == 0 {
                return String::from_str("no devices configured — type setup to add one");
            }
            match latest {
                None => {
                    let mut s = String::new();
                    push_dec(&mut s, n as u64);
                    push_str(&mut s, " device(s) configured · no sync yet — press s to start the bridge");
                    proof {
                        reveal_strlit("");
                    }
                    s
                },
                Some(r) => {
                    let mut s = String::from_str("last sync ");
                    push_str(
                        &mut s,
                        if r.ok {
                            "✓"
                        } else {
                            "✗"
                        },
                    );
                    push_str(&mut s, " ");
                    push_str(&mut s, r.device_code.as_str());
                    push_str(&mut s, " · pulled ");
                    push_dec(&mut s, r.pulled as u64);
                    push_str(&mut s, " · forwarded ");
                    push_dec(&mut s, r.forwarded as u64);
                    push_str(&mut s, " · ");
                    match ago_secs {
                        Some(secs) => {
                            let a = ago(secs);
                            push_str(&mut s, a.as_str());
                        },
                        None => push_str(&mut s, "time unknown"),
                    }
                    s
                },
            }
        },
    }
}

/// The position of the first row named `bridge`.
pub open spec fn bridge_index(rows: Seq<ServiceStatus>) -> Option<int>
    decreases rows.len(),
{
    if rows.len() == 0 {
        None
    } else if rows[0].name@ == "bridge"@ {
        Some(0)
    } else {
        match bridge_index(rows.drop_first()) {
            Some(i) => Some(i + 1),
            None => None,
        }
    }
}

/// The bridge's row among the running services, or a stopped row.
pub fn bridge_status(rows: Vec<ServiceStatus>) -> (r: ServiceStatus)
    ensures
        r.name@ == "bridge"@,
        match bridge_index(rows@) {
            Some(i) => 0 <= i < rows@.len() && r == rows@[i],
            None => r.kind == ServiceKind::AtBridge && !r.running && r.pid is None && r.port is None
                && r.url is None && r.uptime_secs is None,
        },
{
    let ghost all = rows@;
    let mut list = rows;
    let mut i: usize = 0;
    assert(all.skip(0) =~= all);
    while i < list.len()
        invariant
            i <= list.len(),
            list@ == all,
            rows@ == all,
            bridge_index(all) == match bridge_index(all.skip(i as int)) {
                Some(k) => Some(k + i),
                None => None,
            },
        decreases list.len() - i,
    {
        assert(all.skip(i as int)[0] == all[i as int]);
        assert(all.skip(i as int).drop_first() =~= all.skip(i + 1));
        if str_eq(list[i].name.as_str(), "bridge") {
            assert(all.skip(i as int).len() > 0);
            assert(bridge_index(all.skip(i as int)) == Some(0int));
            let row = list.remove(i);
            assert(row == all[i as int]);
            return row;
        }
        i += 1;
    }
    assert(all.skip(i as int) =~= Seq::<ServiceStatus>::empty());
    proof {
        reveal_strlit("bridge");
    }
    ServiceStatus {
        name: String::from_str("bridge"),
        kind: ServiceKind::AtBridge,
        running: false,
        pid: None,
        port: None,
        url: None,
        uptime_secs: None,
    }
}

} // verus!
