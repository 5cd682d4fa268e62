//! Scalar settings handed to the core and their validation rules. The
//! process loads, substitutes and parses its configuration outside this
//! library and passes the resulting plain values in.

use vstd::prelude::*;

verus! {

/// The scalar settings of the monitoring process.
pub struct Settings {
    /// Polling interval in seconds; rejected below 5.
    pub interval: u64,
    /// Per-probe TCP connect timeout in seconds; accepted in 1..=30.
    pub timeout: u64,
    /// Minimum number of seconds between two alerts for one device.
    pub alert_cooldown: u64,
    /// Webhook endpoint; must start with "http".
    pub webhook: String,
    /// Log level name; purely informational to the core.
    pub log_level: String,
    /// Cap on simultaneously in-flight probes; must be positive.
    pub max_concurrent_connections: usize,
}

/// Why a settings record was rejected.
#[derive(Clone, Copy, Debug, PartialEq, Eq, Structural)]
pub enum ConfigError {
    IntervalTooSmall,
    TimeoutOutOfRange,
    WebhookInvalid,
    NoConcurrency,
}

/// A usable webhook endpoint: non-empty and an http(s) URL.
pub open spec fn webhook_ok(w: Seq<char>) -> bool {
    w.len() >= 4 && w.subrange(0, 4) == "http"@
}

/// All validation rules together.
pub open spec fn settings_ok(s: Settings) -> bool {
    &&& s.interval >= 5
    &&& 1 <= s.timeout <= 30
    &&& webhook_ok(s.webhook@)
    &&& s.max_concurrent_connections > 0
}

/// The log level used when the configuration names none.
pub fn default_log_level() -> (r: String)
    ensures
        r@ == "info"@,
{
    "info".to_owned()
}

/// The probe concurrency cap used when the configuration names none.
pub fn default_max_concurrent() -> (r: usize)
    ensures
        r == 100,
{
    100
}

fn webhook_valid(w: &str) -> (r: bool)
    ensures
        r == webhook_ok(w@),
{
    proof {
        reveal_strlit("http");
    }
    if w.unicode_len() < 4 {
        return false;
    }
    let r = w.get_char(0) == 'h' && w.get_char(1) == 't' && w.get_char(2) == 't' && w.get_char(3)
        == 'p';
    proof {
        if r {
            assert(w@.subrange(0, 4) =~= "http"@);
        } else {
            assert(w@.subrange(0, 4) != "http"@) by {
                if w@.subrange(0, 4) == "http"@ {
                    assert(w@[0] == "http"@[0]);
                    assert(w@[1] == "http"@[1]);
                    assert(w@[2] == "http"@[2]);
                    assert(w@[3] == "http"@[3]);
                }
            }
        }
    }
    r
}

/// Accepts a settings record exactly when every rule of `settings_ok`
/// holds; otherwise reports the first broken rule, in the order
/// interval, timeout, webhook, concurrency.
pub fn validate_settings(s: &Settings) -> (r: Result<(), ConfigError>)
    ensures
        r is Ok <==> settings_ok(*s),
        r == Result::<(), ConfigError>::Err(ConfigError::IntervalTooSmall) <==> s.interval < 5,
        r == Result::<(), ConfigError>::Err(ConfigError::TimeoutOutOfRange) <==> s.interval >= 5
            && !(1 <= s.timeout <= 30),
        r == Result::<(), ConfigError>::Err(ConfigError::WebhookInvalid) <==> s.interval >= 5 && 1
            <= s.timeout <= 30 && !webhook_ok(s.webhook@),
        r == Result::<(), ConfigError>::Err(ConfigError::NoConcurrency) <==> s.interval >= 5 && 1
            <= s.timeout <= 30 && webhook_ok(s.webhook@) && s.max_concurrent_connections == 0,
{
    if s.interval < 5 {
        return Err(ConfigError::IntervalTooSmall);
    }
    if s.timeout < 1 || s.timeout > 30 {
        return Err(ConfigError::TimeoutOutOfRange);
    }
    if !webhook_valid(s.webhook.as_str()) {
        return Err(ConfigError::WebhookInvalid);
    }
    if s.max_concurrent_connections == 0 {
        return Err(ConfigError::NoConcurrency);
    }
    Ok(())
}

/// A short description of a rejected settings record.
pub fn config_error_text(e: &ConfigError) -> (r: String)
    ensures
        e is IntervalTooSmall ==> r@ == "interval cannot be less than 5 seconds"@,
        e is TimeoutOutOfRange ==> r@ == "timeout should be between 1-30 seconds"@,
        e is WebhookInvalid ==> r@ == "webhook URL is required and must start with http/https"@,
        e is NoConcurrency ==> r@ == "max_concurrent_connections must be greater than 0"@,
{
    match e {
        ConfigError::IntervalTooSmall => "interval cannot be less than 5 seconds".to_owned(),
        ConfigError::TimeoutOutOfRange => "timeout should be between 1-30 seconds".to_owned(),
        ConfigError::WebhookInvalid => "webhook URL is required and must start with http/https".to_owned(),
        ConfigError::NoConcurrency => "max_concurrent_connections must be greater than 0".to_owned(),
    }
}

} // verus!
