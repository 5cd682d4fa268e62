//! Per-round decisions of the orchestrator: routing one device's
//! verdict into the alert state machine, and pacing the next round.
//! The surrounding loop fans the probes out, awaits them, performs the
//! delivery and the sleep; every decision it acts on is taken here.

use crate::alert::{alert_step, AlertState};
use vstd::prelude::*;

verus! {

/// What one device's verdict led to in this round.
#[derive(Clone, Copy, Debug, PartialEq, Eq, Structural)]
pub enum Disposition {
    /// Healthy and previously failed: its record was cleared.
    Recovered,
    /// Healthy with no record: nothing to do.
    StillHealthy,
    /// Failing and past its cooldown: deliver an alert.
    Alert,
    /// Failing but within its cooldown: stay silent.
    Suppressed,
}

/// Routes one device's verdict into the alert state machine: a healthy
/// device is cleared (counting as a recovery only if a record existed),
/// a failing one fires exactly when `alert_step` says so.
pub fn process_device_result(
    state: &mut AlertState,
    device_id: &str,
    healthy: bool,
    now_ts: i64,
    cooldown: u64,
) -> (r: Disposition)
    requires
        old(state).wf(),
        now_ts >= 0,
        cooldown <= i64::MAX,
    ensures
        final(state).wf(),
        healthy ==> {
            &&& final(state)@ == old(state)@.remove(device_id@)
            &&& (r == Disposition::Recovered <==> old(state)@.contains_key(device_id@))
            &&& (r == Disposition::StillHealthy <==> !old(state)@.contains_key(device_id@))
        },
        !healthy ==> {
            &&& final(state)@ == alert_step(
                old(state)@,
                device_id@,
                true,
                now_ts as int,
                cooldown as int,
            ).0
            &&& (r == Disposition::Alert <==> alert_step(
                old(state)@,
                device_id@,
                true,
                now_ts as int,
                cooldown as int,
            ).1)
            &&& (r == Disposition::Suppressed <==> !alert_step(
                old(state)@,
                device_id@,
                true,
                now_ts as int,
                cooldown as int,
            ).1)
        },
{
    if healthy {
        if state.mark_recovered(device_id) {
            Disposition::Recovered
        } else {
            Disposition::StillHealthy
        }
    } else {
        if state.should_alert(device_id, true, now_ts, cooldown) {
            Disposition::Alert
        } else {
            Disposition::Suppressed
        }
    }
}

/// The failing devices of one group, named by the group field and
/// holding the indices of its members in the round's failure list.
pub struct GroupBucket {
    pub name: String,
    pub members: Vec<usize>,
}

/// Whether index `k` lies in some bucket of `r`.
pub open spec fn bucketed(r: Seq<GroupBucket>, k: int) -> bool {
    exists|g: int, j: int|
        0 <= g < r.len() && 0 <= j < r[g].members@.len() && #[trigger] r[g].members@[j] == k
}

/// Buckets the failing devices of a round by their group field, for
/// reporting only — grouping never alters alerting. Every index lands
/// in exactly one bucket: the one carrying its group name. Buckets
/// appear in first-occurrence order and keep their members in input
/// order.
pub fn group_by_name(names: &Vec<String>) -> (r: Vec<GroupBucket>)
    ensures
        forall|g: int, j: int|
            0 <= g < r@.len() && 0 <= j < r@[g].members@.len() ==> r@[g].members@[j] < names@.len()
                && names@[r@[g].members@[j] as int]@ == r@[g].name@,
        forall|k: int| 0 <= k < names@.len() ==> #[trigger] bucketed(r@, k),
        forall|g1: int, g2: int| 0 <= g1 < g2 < r@.len() ==> r@[g1].name@ != r@[g2].name@,
        forall|g: int, j1: int, j2: int|
            0 <= g < r@.len() && 0 <= j1 < j2 < r@[g].members@.len() ==> r@[g].members@[j1] < r@[g].members@[j2],
        forall|g: int| 0 <= g < r@.len() ==> r@[g].members@.len() > 0,
{
    let mut r: Vec<GroupBucket> = Vec::new();
    let mut k: usize = 0;
    while k < names.len()
        invariant
            k <= names@.len(),
            forall|g: int, j: int|
                0 <= g < r@.len() && 0 <= j < r@[g].members@.len() ==> r@[g].members@[j] < k
                    && names@[r@[g].members@[j] as int]@ == r@[g].name@,
            forall|i: int| 0 <= i < k ==> #[trigger] bucketed(r@, i),
            forall|g1: int, g2: int| 0 <= g1 < g2 < r@.len() ==> r@[g1].name@ != r@[g2].name@,
            forall|g: int, j1: int, j2: int|
                0 <= g < r@.len() && 0 <= j1 < j2 < r@[g].members@.len() ==> r@[g].members@[j1] < r@[g].members@[j2],
            forall|g: int| 0 <= g < r@.len() ==> r@[g].members@.len() > 0,
        decreases names@.len() - k,
    {
        let ghost r0 = r@;
        let mut g: usize = 0;
        let mut found = false;
        while g < r.len() && !found
            invariant
                k < names@.len(),
                g <= r@.len(),
                r@ == r0,
                !found ==> forall|h: int| 0 <= h < g ==> r@[h].name@ != names@[k as int]@,
                found ==> g < r@.len() && r@[g as int].name@ == names@[k as int]@,
            decreases r@.len() - g + (if found { 0int } else { 1int }),
        {
            if r[g].name == names[k] {
                found = true;
            } else {
                g += 1;
            }
        }
        if found {
            let mut bucket = r.remove(g);
            bucket.members.push(k);
            r.insert(g, bucket);
            proof {
                assert(r@ =~= r0.update(g as int, r@[g as int]));
                assert(r@[g as int].members@ == r0[g as int].members@.push(k));
                assert forall|i: int| 0 <= i < k + 1 implies #[trigger] bucketed(r@, i) by {
                    if i < k {
                        assert(bucketed(r0, i));
                        let (gg, j) = choose|gg: int, j: int|
                            0 <= gg < r0.len() && 0 <= j < r0[gg].members@.len()
                                && #[trigger] r0[gg].members@[j] == i;
                        assert(r@[gg].members@[j] == i);
                    } else {
                        let j = r@[g as int].members@.len() - 1;
                        assert(r@[g as int].members@[j] == k);
                    }
                }
            }
        } else {
            let mut members: Vec<usize> = Vec::new();
            members.push(k);
            r.push(GroupBucket { name: names[k].clone(), members });
            proof {
                assert(r@.drop_last() =~= r0);
                assert forall|i: int| 0 <= i < k + 1 implies #[trigger] bucketed(r@, i) by {
                    if i < k {
                        assert(bucketed(r0, i));
                        let (gg, j) = choose|gg: int, j: int|
                            0 <= gg < r0.len() && 0 <= j < r0[gg].members@.len()
                                && #[trigger] r0[gg].members@[j] == i;
                        assert(r@[gg].members@[j] == i);
                    } else {
                        assert(r@[r@.len() - 1].members@[0] == k);
                    }
                }
            }
        }
        k += 1;
    }
    r
}

/// How long to pause before the next round: the remainder of the
/// polling interval, or nothing when the round already took that long.
pub fn sleep_remainder(elapsed: u64, interval: u64) -> (r: u64)
    ensures
        elapsed < interval ==> r == interval - elapsed,
        elapsed >= interval ==> r == 0,
{
    if elapsed < interval {
        interval - elapsed
    } else {
        0
    }
}

} // verus!
