use port_sentinel::notify::{backoff_ms, should_retry, MAX_SEND_ATTEMPTS};

/// Drives the retry policy exactly as the delivery loop does and
/// reports how many sends it performs for the given attempt outcomes.
fn sends_for(outcomes: &[bool]) -> u64 {
    let mut attempt: u64 = 0;
    loop {
        attempt += 1;
        let delivered = outcomes[(attempt - 1) as usize];
        if !should_retry(attempt, delivered) {
            return attempt;
        }
    }
}

#[test]
fn at_most_three_sends() {
    assert_eq!(sends_for(&[false, false, false]), 3);
    assert_eq!(sends_for(&[false, false, false, false, false]), 3);
}

#[test]
fn stops_immediately_on_success() {
    assert_eq!(sends_for(&[true]), 1);
    assert_eq!(sends_for(&[true, false, false]), 1);
    assert_eq!(sends_for(&[false, true, false]), 2);
    assert_eq!(sends_for(&[false, false, true]), 3);
}

#[test]
fn retry_policy_values() {
    assert_eq!(MAX_SEND_ATTEMPTS, 3);
    assert!(should_retry(1, false));
    assert!(should_retry(2, false));
    assert!(!should_retry(3, false));
    assert!(!should_retry(1, true));
    assert!(!should_retry(2, true));
}

#[test]
fn backoff_grows_linearly() {
    assert_eq!(backoff_ms(1), 500);
    assert_eq!(backoff_ms(2), 1000);
    assert_eq!(backoff_ms(3), 1500);
}
