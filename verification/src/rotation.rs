//! Size-based log rotation with copy-truncate semantics: the live log is
//! copied to `.1` and emptied, older backups move up one number, and the
//! oldest beyond the kept count is deleted. This module plans the steps;
//! the file operations stay with the caller.

use vstd::prelude::*;

use crate::text::{dec, push_dec, push_str};

verus! {

/// The size at which a log is rotated (5 MiB).
pub const MAX_LOG_BYTES: u64 = 5242880;

/// How many rotated backups are kept.
pub const KEEP_FILES: u32 = 5;

/// The name of backup `n` of a log: `bridge.log` gives `bridge.log.n`.
pub open spec fn backup_text(log: Seq<char>, n: nat) -> Seq<char> {
    log + "."@ + dec(n)
}

pub fn backup_name(log: &str, n: u32) -> (r: String)
    ensures
        r@ == backup_text(log@, n as nat),
{
    let mut s = String::from_str(log);
    push_str(&mut s, ".");
    push_dec(&mut s, n as u64);
    s
}

/// The renames that shift the backups up: `keep-1 → keep`, …, `1 → 2`.
pub open spec fn shifts(keep: nat) -> Seq<(nat, nat)>
    decreases keep,
{
    if keep <= 1 {
        seq![]
    } else {
        seq![((keep - 1) as nat, keep)] + shifts((keep - 1) as nat)
    }
}

/// What rotation does to a log of `size` bytes: nothing within the limit;
/// otherwise delete backup `keep`, shift the others up, copy the log to
/// backup 1 and empty it.
pub struct RotationPlan {
    /// The backup number deleted first.
    pub delete: u32,
    /// The renames, in the order they are done.
    pub renames: Vec<(u32, u32)>,
}

pub fn rotation_plan(size: u64, max_bytes: u64, keep: u32) -> (r: Option<RotationPlan>)
    ensures
        match r {
            None => size <= max_bytes,
            Some(p) => {
                &&& size > max_bytes
                &&& p.delete == keep
                &&& p.renames@.len() == shifts(keep as nat).len()
                &&& forall|k: int|
                    0 <= k < p.renames@.len() ==> (p.renames@[k].0 as nat, p.renames@[k].1 as nat)
                        == #[trigger] shifts(keep as nat)[k]
            },
        },
{
    if size <= max_bytes {
        return None;
    }
    let mut renames: Vec<(u32, u32)> = Vec::new();
    let mut i: u32 = keep;
    while i > 1
        invariant
            i <= keep,
            renames@.len() == shifts(keep as nat).len() - shifts(i as nat).len(),
            shifts(keep as nat) == renames@.map_values(|p: (u32, u32)| (p.0 as nat, p.1 as nat)) + shifts(
                i as nat,
            ),
        decreases i,
    {
        let ghost before = renames@;
        renames.push((i - 1, i));
        proof {
            assert(shifts(i as nat) == seq![((i - 1) as nat, i as nat)] + shifts((i - 1) as nat));
            assert(renames@.map_values(|p: (u32, u32)| (p.0 as nat, p.1 as nat)) =~= before.map_values(
                |p: (u32, u32)| (p.0 as nat, p.1 as nat),
            ).push(((i - 1) as nat, i as nat)));
        }
        i -= 1;
    }
    proof {
        assert(shifts(i as nat) =~= seq![]);
        assert forall|k: int| 0 <= k < renames@.len() implies (renames@[k].0 as nat, renames@[k].1 as nat)
            == #[trigger] shifts(keep as nat)[k] by {
            assert(renames@.map_values(|p: (u32, u32)| (p.0 as nat, p.1 as nat))[k] == (
                renames@[k].0 as nat,
                renames@[k].1 as nat,
            ));
        }
    }
    Some(RotationPlan { delete: keep, renames })
}

/// Backups move up in descending order: every rename goes to the number
/// the previous rename has just vacated (or that was deleted first), so no
/// backup is overwritten before it has moved.
pub proof fn law_shifts_never_overwrite(keep: nat)
    ensures
        shifts(keep).len() > 0 ==> shifts(keep)[0].1 == keep,
        forall|k: int| 0 <= k < shifts(keep).len() ==> (#[trigger] shifts(keep)[k]).1 == shifts(keep)[k].0 + 1,
        forall|k: int| 0 < k < shifts(keep).len() ==> (#[trigger] shifts(keep)[k]).1 == shifts(keep)[k - 1].0,
        forall|k: int| 0 <= k < shifts(keep).len() ==> (#[trigger] shifts(keep)[k]).0 >= 1,
    decreases keep,
{
    if keep > 1 {
        law_shifts_never_overwrite((keep - 1) as nat);
        let s = shifts(keep);
        let t = shifts((keep - 1) as nat);
        assert forall|k: int| 0 < k < s.len() implies #[trigger] s[k] == t[k - 1] by {}
    }
}

} // verus!
