use port_sentinel::alert::AlertState;
use port_sentinel::evaluate::{evaluate_device, CheckEvaluation, CheckItem, ProbeOutcome};
use port_sentinel::round::{group_by_name, process_device_result, sleep_remainder, Disposition};

#[test]
fn pacing_sleeps_the_interval_remainder() {
    assert_eq!(sleep_remainder(3, 15), 12);
    assert_eq!(sleep_remainder(15, 15), 0);
    assert_eq!(sleep_remainder(40, 15), 0);
    assert_eq!(sleep_remainder(0, 15), 15);
}

#[test]
fn grouping_buckets_by_group_name() {
    let names =
        vec!["db".to_string(), "web".to_string(), "db".to_string(), "cache".to_string()];
    let buckets = group_by_name(&names);
    assert_eq!(buckets.len(), 3);
    assert_eq!(buckets[0].name, "db");
    assert_eq!(buckets[0].members, vec![0, 2]);
    assert_eq!(buckets[1].name, "web");
    assert_eq!(buckets[1].members, vec![1]);
    assert_eq!(buckets[2].name, "cache");
    assert_eq!(buckets[2].members, vec![3]);
}

#[test]
fn grouping_of_nothing_is_empty() {
    let buckets = group_by_name(&Vec::new());
    assert!(buckets.is_empty());
}

fn evaluation(port: u16, ips: &[(&str, bool)]) -> CheckEvaluation {
    CheckEvaluation {
        check: CheckItem { port, name: String::new() },
        outcomes: ips
            .iter()
            .map(|(ip, success)| ProbeOutcome { ip: ip.to_string(), success: *success })
            .collect(),
    }
}

#[test]
fn unreachable_device_alerts_every_round_with_zero_cooldown() {
    // Device A: one IP, one check on port 80, always unreachable,
    // cooldown 0 -> an alert fires in each of three rounds.
    // Device B: always reachable -> no alert, and no record is ever
    // created for it.
    let mut state = AlertState::new();
    let mut alerts: u64 = 0;
    for round in 0..3i64 {
        let result_a = evaluate_device(&vec![evaluation(80, &[("10.0.0.1", false)])]);
        assert!(!result_a.healthy);
        let now = 1000 + round;
        if process_device_result(&mut state, "device-a", result_a.healthy, now, 0)
            == Disposition::Alert
        {
            alerts += 1;
        }
        let result_b = evaluate_device(&vec![evaluation(22, &[("10.0.1.1", true)])]);
        assert!(result_b.healthy);
        assert_eq!(
            process_device_result(&mut state, "device-b", result_b.healthy, now, 0),
            Disposition::StillHealthy
        );
    }
    assert_eq!(alerts, 3);
    assert!(!state.mark_recovered("device-b"));
}
