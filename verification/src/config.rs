//! Configuration data consumed by the monitor and its callers.
//!
//! The library only holds the data; reading the configuration file and
//! filling these structs is the callers' business.

use vstd::prelude::*;
use crate::text::{chars_of, string_of_chars};

verus! {

/// Credentials and zone for the forwarding-rule provider.
#[derive(Clone, Debug)]
pub struct CloudflareConfig {
    pub auth_type: String,
    pub api_key: String,
    pub api_token: String,
    pub zone_id: String,
    pub email: String,
}

/// The domain aliases are created under and the mailbox they forward to.
#[derive(Clone, Debug)]
pub struct EmailConfig {
    pub domain: String,
    pub target_email: String,
}

/// How alias prefixes are generated.
#[derive(Clone, Debug)]
pub struct AliasConfig {
    pub prefix_mode: String,
    pub custom_prefixes: Vec<String>,
    pub random_length: usize,
    pub random_charset: String,
}

/// Mailbox access: credentials and servers.
#[derive(Clone, Debug)]
pub struct SmtpConfig {
    pub username: String,
    pub password: String,
    pub imap_server: String,
    pub imap_port: u16,
    pub smtp_server: String,
    pub smtp_port: u16,
}

/// The whole configuration.
#[derive(Clone, Debug)]
pub struct Config {
    pub cloudflare: CloudflareConfig,
    pub email: EmailConfig,
    pub alias: AliasConfig,
    pub smtp: SmtpConfig,
}

/// The authentication type assumed when the configuration names none.
pub fn default_auth_type() -> (r: String)
    ensures
        r@ == "api_key"@,
{
    let v = chars_of("api_key");
    string_of_chars(&v)
}

} // verus!
