use port_sentinel::config::{
    config_error_text, default_log_level, default_max_concurrent, validate_settings, ConfigError,
    Settings,
};

fn settings() -> Settings {
    Settings {
        interval: 15,
        timeout: 3,
        alert_cooldown: 300,
        webhook: "https://example.invalid/hook".to_string(),
        log_level: "info".to_string(),
        max_concurrent_connections: 100,
    }
}

#[test]
fn defaults() {
    assert_eq!(default_log_level(), "info");
    assert_eq!(default_max_concurrent(), 100);
}

#[test]
fn valid_settings_are_accepted() {
    assert_eq!(validate_settings(&settings()), Ok(()));
}

#[test]
fn interval_below_five_is_rejected() {
    let mut s = settings();
    s.interval = 4;
    assert_eq!(validate_settings(&s), Err(ConfigError::IntervalTooSmall));
}

#[test]
fn timeout_outside_range_is_rejected() {
    let mut s = settings();
    s.timeout = 0;
    assert_eq!(validate_settings(&s), Err(ConfigError::TimeoutOutOfRange));
    s.timeout = 31;
    assert_eq!(validate_settings(&s), Err(ConfigError::TimeoutOutOfRange));
    s.timeout = 30;
    assert_eq!(validate_settings(&s), Ok(()));
}

#[test]
fn webhook_must_start_with_http() {
    let mut s = settings();
    s.webhook = String::new();
    assert_eq!(validate_settings(&s), Err(ConfigError::WebhookInvalid));
    s.webhook = "ftp://example.invalid".to_string();
    assert_eq!(validate_settings(&s), Err(ConfigError::WebhookInvalid));
    s.webhook = "http".to_string();
    assert_eq!(validate_settings(&s), Ok(()));
}

#[test]
fn zero_concurrency_is_rejected() {
    let mut s = settings();
    s.max_concurrent_connections = 0;
    assert_eq!(validate_settings(&s), Err(ConfigError::NoConcurrency));
}

#[test]
fn error_texts_name_the_rule() {
    assert_eq!(
        config_error_text(&ConfigError::IntervalTooSmall),
        "interval cannot be less than 5 seconds"
    );
    assert_eq!(
        config_error_text(&ConfigError::NoConcurrency),
        "max_concurrent_connections must be greater than 0"
    );
}
