use port_sentinel::evaluate::{
    evaluate_check, evaluate_device, CheckEvaluation, CheckItem, ProbeOutcome,
};

fn outcome(ip: &str, success: bool) -> ProbeOutcome {
    ProbeOutcome { ip: ip.to_string(), success }
}

#[test]
fn check_passes_when_any_ip_succeeds() {
    let outcomes = vec![outcome("10.0.0.1", false), outcome("10.0.0.2", true)];
    let (passed, failed) = evaluate_check(&outcomes);
    assert!(passed);
    assert_eq!(failed, vec!["10.0.0.1".to_string()]);
}

#[test]
fn check_fails_when_every_ip_fails() {
    let outcomes = vec![outcome("10.0.0.1", false), outcome("10.0.0.2", false)];
    let (passed, failed) = evaluate_check(&outcomes);
    assert!(!passed);
    assert_eq!(failed, vec!["10.0.0.1".to_string(), "10.0.0.2".to_string()]);
}

#[test]
fn all_ips_reachable_means_healthy_and_no_failures() {
    let evals = vec![
        CheckEvaluation {
            check: CheckItem { port: 22, name: "SSH".to_string() },
            outcomes: vec![outcome("10.0.0.1", true), outcome("10.0.0.2", true)],
        },
        CheckEvaluation {
            check: CheckItem { port: 80, name: "HTTP".to_string() },
            outcomes: vec![outcome("10.0.0.1", true), outcome("10.0.0.2", true)],
        },
    ];
    let result = evaluate_device(&evals);
    assert!(result.healthy);
    assert!(result.failures.is_empty());
}

#[test]
fn failures_hold_exactly_the_fully_failed_checks() {
    let evals = vec![
        CheckEvaluation {
            check: CheckItem { port: 22, name: "SSH".to_string() },
            outcomes: vec![outcome("10.0.0.1", false), outcome("10.0.0.2", true)],
        },
        CheckEvaluation {
            check: CheckItem { port: 80, name: "HTTP".to_string() },
            outcomes: vec![outcome("10.0.0.1", false), outcome("10.0.0.2", false)],
        },
    ];
    let result = evaluate_device(&evals);
    assert!(!result.healthy);
    assert_eq!(result.failures.len(), 1);
    assert_eq!(result.failures[0].check_name, "HTTP");
    assert_eq!(result.failures[0].port, 80);
    assert_eq!(
        result.failures[0].attempted_ips,
        vec!["10.0.0.1".to_string(), "10.0.0.2".to_string()]
    );
}

#[test]
fn unnamed_check_is_reported_by_port() {
    let evals = vec![CheckEvaluation {
        check: CheckItem { port: 8080, name: String::new() },
        outcomes: vec![outcome("10.0.0.1", false)],
    }];
    let result = evaluate_device(&evals);
    assert_eq!(result.failures[0].check_name, "port:8080");
}

#[test]
fn check_with_no_outcomes_counts_as_failed() {
    let outcomes: Vec<ProbeOutcome> = Vec::new();
    let (passed, failed) = evaluate_check(&outcomes);
    assert!(!passed);
    assert!(failed.is_empty());
}
