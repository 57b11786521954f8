//! Configuration records, handed in by the process that owns the real
//! configuration source.

use vstd::prelude::*;

verus! {

/// Notification (SMS) configuration.
#[derive(Clone, Debug)]
pub struct SmsConfig {
    /// Seconds between scheduler ticks.
    pub check_interval: Option<u64>,
    /// Whether the notification scheduler runs at all.
    pub send_sms_toggle: Option<bool>,
    /// Warning horizon, in days, of the soon-to-expire band.
    pub expired_days: Option<i64>,
    /// Recipient phone numbers.
    pub phones: Option<Vec<String>>,
}

/// Web server configuration.
#[derive(Clone, Debug)]
pub struct WebConfig {
    /// Listen address.
    pub addr: String,
    /// Secret key of the web layer.
    pub secret_key: String,
}

/// Cache server configuration.
#[derive(Clone, Debug)]
pub struct RedisConfig {
    pub dsn: String,
}

/// Session configuration.
#[derive(Clone, Debug)]
pub struct SessionConfig {
    /// Prefix of the cache keys that hold sessions.
    pub prefix: String,
    /// Name of the session cookie.
    pub id_name: String,
    /// Session lifetime in seconds.
    pub expired: usize,
}

/// Captcha configuration.
#[derive(Clone, Debug)]
pub struct HCaptchaConfig {
    pub site_key: String,
    pub secret_key: String,
}

} // verus!
