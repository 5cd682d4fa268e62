//! The alert state machine: the single authority that turns raw
//! pass/fail observations into cooldown-gated alert decisions with
//! silent recovery. It is pure state logic; callers hold it under one
//! mutual-exclusion guard and pass the current time in.

use vstd::prelude::*;

verus! {

/// One record per currently-or-recently-failing device: when the last
/// alert for it fired and whether it was failed at that decision.
pub struct AlertEntry {
    pub id: String,
    pub last_ts: i64,
    pub failed: bool,
}

/// Maps a device id to its alert record. A record exists only while the
/// device's most recent observed transition left it failed and not yet
/// recovered.
pub struct AlertState {
    entries: Vec<AlertEntry>,
}

/// The mathematical content of one entry: last alert time and failed
/// marker.
pub open spec fn entry_rec(e: AlertEntry) -> (int, bool) {
    (e.last_ts as int, e.failed)
}

/// No two entries share a device id.
pub open spec fn unique_ids(s: Seq<AlertEntry>) -> bool {
    forall|i: int, j: int| 0 <= i < j < s.len() ==> s[i].id@ != s[j].id@
}

/// The map a sequence of entries stands for.
pub open spec fn entries_map(s: Seq<AlertEntry>) -> Map<Seq<char>, (int, bool)>
    decreases s.len(),
{
    if s.len() == 0 {
        Map::empty()
    } else {
        entries_map(s.drop_last()).insert(s.last().id@, entry_rec(s.last()))
    }
}

/// The last alert time the machine compares against: the record's
/// timestamp, or 0 when the device has no record.
pub open spec fn spec_last_ts(m: Map<Seq<char>, (int, bool)>, id: Seq<char>) -> int {
    if m.contains_key(id) {
        m[id].0
    } else {
        0
    }
}

/// One step of the alert decision process: the new record map and
/// whether an alert fires.
///
/// A device with a failed record that now reports healthy is cleared
/// silently. A healthy device without a failed record changes nothing.
/// A failing device fires exactly when the time since its last alert
/// (0 when it has none) has reached the cooldown; firing refreshes the
/// record to the current time and marks it failed.
pub open spec fn alert_step(
    m: Map<Seq<char>, (int, bool)>,
    id: Seq<char>,
    currently_failed: bool,
    now: int,
    cooldown: int,
) -> (Map<Seq<char>, (int, bool)>, bool) {
    if m.contains_key(id) && m[id].1 && !currently_failed {
        (m.remove(id), false)
    } else if !currently_failed {
        (m, false)
    } else if now - spec_last_ts(m, id) >= cooldown {
        (m.insert(id, (now, true)), true)
    } else {
        (m, false)
    }
}

proof fn lemma_entries_map_contains(s: Seq<AlertEntry>, k: Seq<char>)
    ensures
        entries_map(s).contains_key(k) <==> exists|i: int| 0 <= i < s.len() && s[i].id@ == k,
    decreases s.len(),
{
    if s.len() > 0 {
        lemma_entries_map_contains(s.drop_last(), k);
        if entries_map(s).contains_key(k) {
            if s.last().id@ == k {
                assert(s[s.len() - 1].id@ == k);
            } else {
                let i = choose|i: int| 0 <= i < s.drop_last().len() && s.drop_last()[i].id@ == k;
                assert(s[i].id@ == k);
            }
        }
        if exists|i: int| 0 <= i < s.len() && s[i].id@ == k {
            let i = choose|i: int| 0 <= i < s.len() && s[i].id@ == k;
            if i < s.len() - 1 {
                assert(s.drop_last()[i].id@ == k);
            }
        }
    }
}

proof fn lemma_entries_map_index(s: Seq<AlertEntry>, i: int)
    requires
        unique_ids(s),
        0 <= i < s.len(),
    ensures
        entries_map(s).contains_key(s[i].id@),
        entries_map(s)[s[i].id@] == entry_rec(s[i]),
    decreases s.len(),
{
    if i == s.len() - 1 {
        assert(entries_map(s) == entries_map(s.drop_last()).insert(s.last().id@, entry_rec(
            s.last(),
        )));
    } else {
        assert(unique_ids(s.drop_last()));
        lemma_entries_map_index(s.drop_last(), i);
        assert(s.drop_last()[i] == s[i]);
        assert(s[i].id@ != s.last().id@);
    }
}

proof fn lemma_entries_map_remove(s: Seq<AlertEntry>, i: int)
    requires
        unique_ids(s),
        0 <= i < s.len(),
    ensures
        entries_map(s.remove(i)) == entries_map(s).remove(s[i].id@),
    decreases s.len(),
{
    let k = s[i].id@;
    if i == s.len() - 1 {
        assert(s.remove(i) =~= s.drop_last());
        assert(unique_ids(s.drop_last()));
        lemma_entries_map_contains(s.drop_last(), k);
        assert(!entries_map(s.drop_last()).contains_key(k));
        assert(entries_map(s.drop_last()).insert(k, entry_rec(s[i])).remove(k) =~= entries_map(
            s.drop_last(),
        ));
    } else {
        assert(unique_ids(s.drop_last()));
        assert(s.remove(i).drop_last() =~= s.drop_last().remove(i));
        assert(s.remove(i).last() == s.last());
        lemma_entries_map_remove(s.drop_last(), i);
        let lastk = s.last().id@;
        assert(lastk != k);
        assert(entries_map(s.drop_last()).remove(k).insert(lastk, entry_rec(s.last()))
            =~= entries_map(s.drop_last()).insert(lastk, entry_rec(s.last())).remove(k));
    }
}

impl View for AlertState {
    type V = Map<Seq<char>, (int, bool)>;

    closed spec fn view(&self) -> Map<Seq<char>, (int, bool)> {
        entries_map(self.entries@)
    }
}

impl AlertState {
    /// Internal shape the machine keeps: one entry per device, every
    /// recorded timestamp non-negative.
    pub closed spec fn wf(&self) -> bool {
        &&& unique_ids(self.entries@)
        &&& forall|i: int| 0 <= i < self.entries@.len() ==> self.entries@[i].last_ts >= 0
    }

    /// A fresh machine knows of no device.
    pub fn new() -> (r: AlertState)
        ensures
            r.wf(),
            r@ == Map::<Seq<char>, (int, bool)>::empty(),
    {
        AlertState { entries: Vec::new() }
    }

    fn find(&self, id: &String) -> (r: Option<usize>)
        ensures
            match r {
                Some(i) => i < self.entries@.len() && self.entries@[i as int].id@ == id@,
                None => forall|i: int| 0 <= i < self.entries@.len() ==> self.entries@[i].id@ != id@,
            },
    {
        let mut i: usize = 0;
        while i < self.entries.len()
            invariant
                i <= self.entries@.len(),
                forall|j: int| 0 <= j < i ==> self.entries@[j].id@ != id@,
            decreases self.entries@.len() - i,
        {
            if self.entries[i].id == *id {
                return Some(i);
            }
            i += 1;
        }
        None
    }

    /// Decides whether to alert for `device_id` given its current
    /// pass/fail observation, the current time and the cooldown, and
    /// updates the record map as `alert_step` says.
    pub fn should_alert(
        &mut self,
        device_id: &str,
        currently_failed: bool,
        now_ts: i64,
        cooldown: u64,
    ) -> (r: bool)
        requires
            old(self).wf(),
            now_ts >= 0,
            cooldown <= i64::MAX,
        ensures
            final(self).wf(),
            final(self)@ == alert_step(
                old(self)@,
                device_id@,
                currently_failed,
                now_ts as int,
                cooldown as int,
            ).0,
            r == alert_step(
                old(self)@,
                device_id@,
                currently_failed,
                now_ts as int,
                cooldown as int,
            ).1,
    {
        let key: String = device_id.to_owned();
        match self.find(&key) {
            Some(i) => {
                proof {
                    lemma_entries_map_contains(self.entries@, device_id@);
                    lemma_entries_map_index(self.entries@, i as int);
                }
                let prev_failed = self.entries[i].failed;
                if prev_failed && !currently_failed {
                    // Silent recovery: clear the record without alerting.
                    proof {
                        lemma_entries_map_remove(self.entries@, i as int);
                    }
                    let _ = self.entries.remove(i);
                    return false;
                }
                if !currently_failed {
                    return false;
                }
                let last = self.entries[i].last_ts;
                if now_ts - last >= cooldown as i64 {
                    proof {
                        lemma_entries_map_remove(self.entries@, i as int);
                    }
                    let ghost m0 = self@;
                    let mut e = self.entries.remove(i);
                    proof {
                        lemma_entries_map_contains(self.entries@, device_id@);
                    }
                    e.last_ts = now_ts;
                    e.failed = true;
                    self.entries.push(e);
                    proof {
                        assert(self.entries@.drop_last() =~= old(self).entries@.remove(i as int));
                        assert(self@ =~= m0.insert(device_id@, (now_ts as int, true)));
                    }
                    true
                } else {
                    false
                }
            },
            None => {
                proof {
                    lemma_entries_map_contains(self.entries@, device_id@);
                }
                if !currently_failed {
                    return false;
                }
                if now_ts >= cooldown as i64 {
                    let ghost s0 = self.entries@;
                    self.entries.push(AlertEntry { id: key, last_ts: now_ts, failed: true });
                    proof {
                        assert(self.entries@.drop_last() =~= s0);
                    }
                    true
                } else {
                    false
                }
            },
        }
    }

    /// Clears the record for `device_id` if one exists; reports whether
    /// one did. Clearing an already-clear device does nothing.
    pub fn mark_recovered(&mut self, device_id: &str) -> (r: bool)
        requires
            old(self).wf(),
        ensures
            final(self).wf(),
            final(self)@ == old(self)@.remove(device_id@),
            r == old(self)@.contains_key(device_id@),
    {
        let key: String = device_id.to_owned();
        proof {
            lemma_entries_map_contains(self.entries@, device_id@);
        }
        match self.find(&key) {
            Some(i) => {
                proof {
                    lemma_entries_map_remove(self.entries@, i as int);
                }
                let _ = self.entries.remove(i);
                true
            },
            None => {
                proof {
                    assert(self@.remove(device_id@) =~= self@);
                }
                false
            },
        }
    }
}

/// Recovery is silent: a device with a failed record that evaluates
/// healthy is cleared without an alert, and a further recovery check on
/// the already-cleared device finds nothing.
pub proof fn lemma_silent_recovery(
    m: Map<Seq<char>, (int, bool)>,
    id: Seq<char>,
    now: int,
    cooldown: int,
)
    requires
        m.contains_key(id),
        m[id].1,
    ensures
        !alert_step(m, id, false, now, cooldown).1,
        !alert_step(m, id, false, now, cooldown).0.contains_key(id),
        !alert_step(m, id, false, now, cooldown).0.remove(id).contains_key(id),
{
}

/// Cooldown gating: while the time since the device's last alert is
/// below the cooldown, a failing device neither alerts nor changes the
/// record; once it reaches the cooldown the alert fires and the record
/// is refreshed to the current time.
pub proof fn lemma_cooldown_gate(
    m: Map<Seq<char>, (int, bool)>,
    id: Seq<char>,
    now: int,
    cooldown: int,
)
    requires
        m.contains_key(id) ==> m[id].1,
    ensures
        now - spec_last_ts(m, id) < cooldown ==> alert_step(m, id, true, now, cooldown) == (
            m,
            false,
        ),
        now - spec_last_ts(m, id) >= cooldown ==> alert_step(m, id, true, now, cooldown) == (
            m.insert(id, (now, true)),
            true,
        ),
{
}

/// Every record the machine holds is marked failed.
pub open spec fn all_failed(m: Map<Seq<char>, (int, bool)>) -> bool {
    forall|k: Seq<char>| m.contains_key(k) ==> m[k].1
}

/// The record map only ever holds failed devices: a record exists for
/// a device exactly while its most recent transition left it failed,
/// and every step preserves that.
pub proof fn lemma_records_stay_failed(
    m: Map<Seq<char>, (int, bool)>,
    id: Seq<char>,
    currently_failed: bool,
    now: int,
    cooldown: int,
)
    requires
        all_failed(m),
    ensures
        all_failed(alert_step(m, id, currently_failed, now, cooldown).0),
{
}

/// While a device keeps re-triggering, its recorded last-alert time
/// never decreases.
pub proof fn lemma_last_alert_monotonic(
    m: Map<Seq<char>, (int, bool)>,
    id: Seq<char>,
    now: int,
    cooldown: int,
)
    requires
        cooldown >= 0,
        alert_step(m, id, true, now, cooldown).0.contains_key(id),
        m.contains_key(id),
    ensures
        alert_step(m, id, true, now, cooldown).0[id].0 >= m[id].0,
{
}

} // verus!
