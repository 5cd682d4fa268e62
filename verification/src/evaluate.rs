//! Aggregation of probe outcomes into check results and device results.
//! The process probes each `ip:port` concurrently and hands the
//! collected outcomes — in completion order, which is not input order —
//! to these functions; everything from the raw booleans up to the
//! device verdict is decided and proved here.

use crate::text::dec_str;
use vstd::prelude::*;

verus! {

/// One monitored port on a device, optionally named.
pub struct CheckItem {
    pub port: u16,
    /// Display name; an empty name is rendered as `port:<N>`.
    pub name: String,
}

/// A monitored host, as the configuration loader hands it in.
pub struct Device {
    pub id: String,
    pub name: String,
    pub group: String,
    pub priority: String,
    pub ips: Vec<String>,
    pub os: String,
    pub location: String,
    pub checks: Vec<CheckItem>,
}

/// The outcome of one probe: the IP it targeted and whether the TCP
/// handshake completed within the timeout.
pub struct ProbeOutcome {
    pub ip: String,
    pub success: bool,
}

/// One failed check of a device: its display name, port, and every IP
/// whose probe failed, in completion order.
pub struct CheckFailure {
    pub check_name: String,
    pub port: u16,
    pub attempted_ips: Vec<String>,
}

/// The probe outcomes gathered for one check of a device.
pub struct CheckEvaluation {
    pub check: CheckItem,
    pub outcomes: Vec<ProbeOutcome>,
}

/// A device's verdict for one round.
pub struct DeviceResult {
    pub healthy: bool,
    pub failures: Vec<CheckFailure>,
}

/// A check passes exactly when at least one of its probes succeeded.
pub open spec fn check_passed(outcomes: Seq<ProbeOutcome>) -> bool {
    exists|i: int| 0 <= i < outcomes.len() && outcomes[i].success
}

/// The IPs whose probes failed, in the order the outcomes arrived.
pub open spec fn failed_ips_of(outcomes: Seq<ProbeOutcome>) -> Seq<Seq<char>>
    decreases outcomes.len(),
{
    if outcomes.len() == 0 {
        Seq::empty()
    } else if outcomes.last().success {
        failed_ips_of(outcomes.drop_last())
    } else {
        failed_ips_of(outcomes.drop_last()).push(outcomes.last().ip@)
    }
}

/// The name a check is reported under: its own name, or `port:<N>` when
/// it has none.
pub open spec fn display_name(name: Seq<char>, port: u16) -> Seq<char> {
    if name.len() == 0 {
        "port:"@ + dec_str(port as nat)
    } else {
        name
    }
}

/// The mathematical content of a reported failure: display name, port,
/// failed IPs.
pub open spec fn failure_view(f: CheckFailure) -> (Seq<char>, u16, Seq<Seq<char>>) {
    (f.check_name@, f.port, f.attempted_ips@.map_values(|s: String| s@))
}

/// What a failed check is reported as.
pub open spec fn spec_failure_of(e: CheckEvaluation) -> (Seq<char>, u16, Seq<Seq<char>>) {
    (display_name(e.check.name@, e.check.port), e.check.port, failed_ips_of(e.outcomes@))
}

/// A device is healthy exactly when every one of its checks passed.
pub open spec fn device_healthy(evals: Seq<CheckEvaluation>) -> bool {
    forall|i: int| 0 <= i < evals.len() ==> check_passed(evals[i].outcomes@)
}

/// The failure reports of a device: one entry per check for which every
/// probe failed, in the order the check results arrived.
pub open spec fn device_failures(evals: Seq<CheckEvaluation>) -> Seq<
    (Seq<char>, u16, Seq<Seq<char>>),
>
    decreases evals.len(),
{
    if evals.len() == 0 {
        Seq::empty()
    } else if check_passed(evals.last().outcomes@) {
        device_failures(evals.drop_last())
    } else {
        device_failures(evals.drop_last()).push(spec_failure_of(evals.last()))
    }
}

/// Aggregates the probe outcomes of one check: whether it passed, and
/// which IPs failed.
pub fn evaluate_check(outcomes: &Vec<ProbeOutcome>) -> (r: (bool, Vec<String>))
    ensures
        r.0 == check_passed(outcomes@),
        r.1@.map_values(|s: String| s@) == failed_ips_of(outcomes@),
{
    let mut any_success = false;
    let mut failed_ips: Vec<String> = Vec::new();
    let mut i: usize = 0;
    while i < outcomes.len()
        invariant
            i <= outcomes@.len(),
            any_success == check_passed(outcomes@.take(i as int)),
            failed_ips@.map_values(|s: String| s@) == failed_ips_of(outcomes@.take(i as int)),
        decreases outcomes@.len() - i,
    {
        let ghost pre = outcomes@.take(i as int);
        proof {
            assert(outcomes@.take(i + 1).drop_last() =~= pre);
            assert(outcomes@.take(i + 1).last() == outcomes@[i as int]);
        }
        if outcomes[i].success {
            any_success = true;
            proof {
                assert(check_passed(outcomes@.take(i + 1)));
            }
        } else {
            failed_ips.push(outcomes[i].ip.clone());
            proof {
                assert(failed_ips@.map_values(|s: String| s@) =~= failed_ips_of(
                    outcomes@.take(i + 1),
                ));
            }
        }
        proof {
            if !outcomes@[i as int].success {
                assert(check_passed(outcomes@.take(i + 1)) == check_passed(pre)) by {
                    if check_passed(outcomes@.take(i + 1)) {
                        let w = choose|j: int|
                            0 <= j < outcomes@.take(i + 1).len() && #[trigger] outcomes@.take(
                                i + 1,
                            )[j].success;
                        assert(pre[w].success);
                    }
                }
            }
        }
        i += 1;
    }
    proof {
        assert(outcomes@.take(outcomes@.len() as int) =~= outcomes@);
    }
    (any_success, failed_ips)
}

fn check_display_name(check: &CheckItem) -> (r: String)
    ensures
        r@ == display_name(check.name@, check.port),
{
    if check.name.as_str().is_empty() {
        let r = "port:".to_owned().concat(crate::text::dec_u64(check.port as u64).as_str());
        proof {
            assert(r@ =~= "port:"@ + dec_str(check.port as nat));
        }
        r
    } else {
        check.name.clone()
    }
}

/// Aggregates the per-check outcomes of one device: healthy exactly
/// when every check passed, and one failure report per check whose
/// probes all failed.
pub fn evaluate_device(evals: &Vec<CheckEvaluation>) -> (r: DeviceResult)
    ensures
        r.healthy == device_healthy(evals@),
        r.failures@.map_values(|f: CheckFailure| failure_view(f)) == device_failures(evals@),
        r.healthy <==> r.failures@.len() == 0,
{
    let mut failures: Vec<CheckFailure> = Vec::new();
    let mut i: usize = 0;
    while i < evals.len()
        invariant
            i <= evals@.len(),
            failures@.map_values(|f: CheckFailure| failure_view(f)) == device_failures(
                evals@.take(i as int),
            ),
            failures@.len() == 0 <==> device_healthy(evals@.take(i as int)),
        decreases evals@.len() - i,
    {
        let ghost pre = evals@.take(i as int);
        proof {
            assert(evals@.take(i + 1).drop_last() =~= pre);
            assert(evals@.take(i + 1).last() == evals@[i as int]);
        }
        let (passed, failed_ips) = evaluate_check(&evals[i].outcomes);
        if !passed {
            let name = check_display_name(&evals[i].check);
            failures.push(
                CheckFailure { check_name: name, port: evals[i].check.port, attempted_ips: failed_ips },
            );
            proof {
                assert(failures@.map_values(|f: CheckFailure| failure_view(f)) =~= device_failures(
                    evals@.take(i + 1),
                ));
                assert(!device_healthy(evals@.take(i + 1)));
            }
        } else {
            proof {
                assert(device_healthy(evals@.take(i + 1)) == device_healthy(pre)) by {
                    if device_healthy(pre) {
                        assert forall|j: int| 0 <= j < evals@.take(i + 1).len() implies check_passed(
                            (#[trigger] evals@.take(i + 1)[j]).outcomes@,
                        ) by {
                            if j < i {
                                assert(pre[j] == evals@.take(i + 1)[j]);
                            }
                        }
                    }
                }
            }
        }
        i += 1;
    }
    proof {
        assert(evals@.take(evals@.len() as int) =~= evals@);
    }
    let healthy = failures.len() == 0;
    DeviceResult { healthy, failures }
}

/// A device whose probes all succeed — every check reaching at least
/// one reachable IP — is reported healthy with no failures.
pub proof fn lemma_all_success_healthy(evals: Seq<CheckEvaluation>)
    requires
        forall|i: int| 0 <= i < evals.len() ==> evals[i].outcomes@.len() > 0,
        forall|i: int, j: int|
            0 <= i < evals.len() && 0 <= j < evals[i].outcomes@.len()
                ==> evals[i].outcomes@[j].success,
    ensures
        device_healthy(evals),
        device_failures(evals) == Seq::<(Seq<char>, u16, Seq<Seq<char>>)>::empty(),
    decreases evals.len(),
{
    if evals.len() == 0 {
        assert(device_failures(evals) =~= Seq::<(Seq<char>, u16, Seq<Seq<char>>)>::empty());
    } else {
        assert forall|i: int, j: int|
            0 <= i < evals.drop_last().len() && 0 <= j
                < evals.drop_last()[i].outcomes@.len() implies evals.drop_last()[
            i
        ].outcomes@[j].success by {
            assert(evals.drop_last()[i] == evals[i]);
        }
        lemma_all_success_healthy(evals.drop_last());
        assert(evals.last().outcomes@[0].success);
        assert(check_passed(evals.last().outcomes@));
        assert forall|i: int| 0 <= i < evals.len() implies check_passed(
            (#[trigger] evals[i]).outcomes@,
        ) by {
            if i < evals.len() - 1 {
                assert(evals.drop_last()[i] == evals[i]);
                assert(check_passed(evals.drop_last()[i].outcomes@));
            }
        }
    }
}

/// The failure list is exact: every check whose probes all failed
/// appears in it, and every entry of it comes from such a check —
/// checks with at least one successful probe are excluded.
pub proof fn lemma_failures_exact(evals: Seq<CheckEvaluation>)
    ensures
        forall|i: int|
            0 <= i < evals.len() && !check_passed(evals[i].outcomes@) ==> device_failures(
                evals,
            ).contains(spec_failure_of(evals[i])),
        forall|k: int|
            0 <= k < device_failures(evals).len() ==> exists|i: int|
                0 <= i < evals.len() && !check_passed(evals[i].outcomes@) && #[trigger] device_failures(
                    evals,
                )[k] == spec_failure_of(evals[i]),
    decreases evals.len(),
{
    if evals.len() > 0 {
        lemma_failures_exact(evals.drop_last());
        let prefix = evals.drop_last();
        let whole = device_failures(evals);
        assert forall|i: int|
            0 <= i < evals.len() && !check_passed(evals[i].outcomes@) implies whole.contains(
            spec_failure_of(evals[i]),
        ) by {
            if i < evals.len() - 1 {
                assert(prefix[i] == evals[i]);
                let k = choose|k: int|
                    0 <= k < device_failures(prefix).len() && device_failures(prefix)[k]
                        == spec_failure_of(prefix[i]);
                assert(whole[k] == spec_failure_of(evals[i]));
            } else {
                assert(whole.last() == spec_failure_of(evals[i]));
            }
        }
        assert forall|k: int| 0 <= k < whole.len() implies exists|i: int|
            0 <= i < evals.len() && !check_passed(evals[i].outcomes@) && #[trigger] whole[k]
                == spec_failure_of(evals[i]) by {
            if k < device_failures(prefix).len() {
                let i = choose|i: int|
                    0 <= i < prefix.len() && !check_passed(prefix[i].outcomes@) && device_failures(
                        prefix,
                    )[k] == spec_failure_of(prefix[i]);
                assert(evals[i] == prefix[i]);
                assert(whole[k] == spec_failure_of(evals[i]));
            } else {
                let i = evals.len() - 1;
                assert(whole[k] == spec_failure_of(evals[i]));
            }
        }
    }
}

} // verus!
