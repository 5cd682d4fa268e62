use port_sentinel::alert::AlertState;
use port_sentinel::round::{process_device_result, Disposition};

#[test]
fn first_failure_past_cooldown_fires() {
    let mut state = AlertState::new();
    assert!(state.should_alert("dev-1", true, 1000, 300));
}

#[test]
fn cooldown_gates_repeated_alerts() {
    // A device failing every round with a 300 s cooldown: the alert
    // fires on the first decision and again once 300 s have elapsed,
    // staying silent at every round in between.
    let mut state = AlertState::new();
    assert!(state.should_alert("dev-1", true, 1000, 300));
    assert!(!state.should_alert("dev-1", true, 1060, 300));
    assert!(!state.should_alert("dev-1", true, 1120, 300));
    assert!(!state.should_alert("dev-1", true, 1180, 300));
    assert!(!state.should_alert("dev-1", true, 1240, 300));
    assert!(state.should_alert("dev-1", true, 1300, 300));
}

#[test]
fn zero_cooldown_fires_every_round() {
    let mut state = AlertState::new();
    assert!(state.should_alert("dev-1", true, 100, 0));
    assert!(state.should_alert("dev-1", true, 101, 0));
    assert!(state.should_alert("dev-1", true, 102, 0));
}

#[test]
fn recovery_is_silent_and_idempotent() {
    let mut state = AlertState::new();
    assert!(state.should_alert("dev-1", true, 1000, 300));
    // The device evaluates healthy: no alert, record removed.
    assert!(!state.should_alert("dev-1", false, 1060, 300));
    // A later recovery check on the already-cleared device finds nothing.
    assert!(!state.mark_recovered("dev-1"));
}

#[test]
fn refailure_after_recovery_alerts_immediately() {
    // Silent recovery deletes the whole record, its timestamp
    // included, so a device that fails again right after recovering is
    // treated like a first failure and alerts at once.
    let mut state = AlertState::new();
    assert!(state.should_alert("dev-1", true, 1000, 300));
    assert!(!state.should_alert("dev-1", false, 1060, 300));
    assert!(state.should_alert("dev-1", true, 1120, 300));
}

#[test]
fn mark_recovered_reports_whether_a_record_existed() {
    let mut state = AlertState::new();
    assert!(state.should_alert("dev-1", true, 1000, 300));
    assert!(state.mark_recovered("dev-1"));
    assert!(!state.mark_recovered("dev-1"));
}

#[test]
fn healthy_device_without_history_stays_silent() {
    let mut state = AlertState::new();
    assert!(!state.should_alert("dev-1", false, 1000, 300));
    assert!(!state.mark_recovered("dev-1"));
}

#[test]
fn devices_are_tracked_independently() {
    let mut state = AlertState::new();
    assert!(state.should_alert("dev-1", true, 1000, 300));
    assert!(state.should_alert("dev-2", true, 1000, 300));
    assert!(!state.should_alert("dev-1", true, 1100, 300));
    assert!(state.mark_recovered("dev-2"));
    assert!(!state.mark_recovered("dev-2"));
    assert!(state.mark_recovered("dev-1"));
}

#[test]
fn failing_rounds_drive_alert_then_suppression() {
    let mut state = AlertState::new();
    assert_eq!(process_device_result(&mut state, "dev-1", false, 1000, 300), Disposition::Alert);
    assert_eq!(
        process_device_result(&mut state, "dev-1", false, 1100, 300),
        Disposition::Suppressed
    );
    assert_eq!(process_device_result(&mut state, "dev-1", true, 1200, 300), Disposition::Recovered);
    assert_eq!(
        process_device_result(&mut state, "dev-1", true, 1300, 300),
        Disposition::StillHealthy
    );
}
