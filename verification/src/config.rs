//! The settings, and how they are read from environment variables.

pub mod env;
pub mod error;
pub mod laws;
pub mod load;
pub mod readings;
pub mod setting;

use crate::text::{optional_text, texts};
use vstd::prelude::*;

pub use crate::config::env::{EnvVars, VarError};
pub use crate::config::error::ConfigError;
pub use crate::config::readings::{readings, Reading, Value};
pub use crate::config::setting::Setting;

verus! {

/// DMARC validation mode for inbound messages.
///
/// * `Off` - no validation. No DNS lookups are performed.
/// * `Monitor` - validate and log, but always accept. Useful when rolling DMARC out.
/// * `Enforce` - reject with `550 5.7.1` on `fail`; what a temporary error does is up to
///   [`DmarcTempErrorAction`].
#[derive(Debug, Clone, Copy, PartialEq, Eq, Structural)]
pub enum DmarcMode {
    Off,
    Monitor,
    Enforce,
}

/// What a temporary DMARC error (DNS failure, timeout, unreachable resolver) does in `Enforce`
/// mode. Ignored in `Off` and `Monitor`.
#[derive(Debug, Clone, Copy, PartialEq, Eq, Structural)]
pub enum DmarcTempErrorAction {
    /// Return `451 4.7.0`: fail closed. The sending server tries again later.
    Reject,
    /// Accept the message and log: fail open.
    Accept,
}

/// How attachments are delivered to the webhook consumer.
#[derive(Debug, Clone, PartialEq, Eq)]
pub enum AttachmentDelivery {
    /// Base64 inside the JSON payload.
    Inline,
    /// Uploaded to an S3-compatible bucket; the payload holds a URL.
    S3(S3Settings),
}

/// Settings for the S3-compatible attachment delivery backend.
///
/// `endpoint` is set for stores other than AWS. When `presign_ttl_secs` is `Some`, each uploaded
/// object gets a presigned GET URL in addition to the bare object URL.
#[derive(Debug, Clone, PartialEq, Eq)]
pub struct S3Settings {
    pub bucket: String,
    pub region: String,
    pub endpoint: Option<String>,
    pub key_prefix: String,
    pub presign_ttl_secs: Option<u64>,
}

/// The runtime settings.
#[derive(Debug, Clone)]
pub struct Config {
    /// The e-mail addresses that mail is accepted for.
    pub target_emails: Vec<String>,
    /// Domains of which every address is accepted.
    pub target_domains: Vec<String>,
    /// Where the payload of each e-mail is sent.
    pub webhook_url: String,
    /// The IP address that the SMTP server listens on.
    pub smtp_bind_address: String,
    /// The port that the SMTP server listens on, from 1 to 65535.
    pub smtp_port: u16,
    /// The IP address that the health check server listens on.
    pub health_check_bind_address: String,
    /// The port that the health check server listens on.
    pub health_check_port: u16,
    /// Prefixes of the names of headers that go into the payload.
    pub header_prefixes: Vec<String>,
    /// How long one webhook request may take, in seconds.
    pub webhook_timeout_secs: u64,
    /// How often a failed delivery is tried again.
    pub webhook_max_retries: u32,
    /// Consecutive failures that open the circuit breaker.
    pub circuit_breaker_threshold: u32,
    /// Seconds before an open circuit breaker lets a request through.
    pub circuit_breaker_reset_secs: u64,
    /// The secret that requests are signed with; where there is none, they are not signed.
    pub webhook_signing_secret: Option<String>,
    /// Path of the Cedar policy file.
    pub cedar_policies_path: String,
    /// Path of the Cedar entities file, if there is one.
    pub cedar_entities_path: Option<String>,
    /// The largest message that is accepted, in bytes.
    pub max_message_size_bytes: u64,
    /// The largest attachment that is accepted, in bytes.
    pub max_attachment_size_bytes: u64,
    /// How attachments are delivered to the webhook consumer.
    pub attachment_delivery: AttachmentDelivery,
    /// DMARC validation mode.
    pub dmarc_mode: DmarcMode,
    /// How long all DNS lookups of one DMARC evaluation may take, in seconds.
    pub dmarc_dns_timeout_secs: u64,
    /// DNS servers for DMARC (`ip:port`); where there are none, the system resolver is used.
    pub dmarc_dns_servers: Vec<String>,
    /// What a temporary DMARC error does in `Enforce` mode.
    pub dmarc_temperror_action: DmarcTempErrorAction,
    /// How many SMTP connections one IP address may have at a time; `0` sets no limit.
    pub max_concurrent_per_ip: u32,
    /// The unknown recipient at which an SMTP session is closed; `0` sets no limit.
    pub max_unknown_rcpts_per_session: u32,
}

/// The contents of [`S3Settings`].
#[verifier::ext_equal]
pub struct S3View {
    pub bucket: Seq<char>,
    pub region: Seq<char>,
    pub endpoint: Option<Seq<char>>,
    pub key_prefix: Seq<char>,
    pub presign_ttl_secs: Option<u64>,
}

/// The contents of [`AttachmentDelivery`].
#[verifier::ext_equal]
pub enum DeliveryView {
    Inline,
    S3(S3View),
}

/// The contents of [`Config`].
#[verifier::ext_equal]
pub struct ConfigView {
    pub target_emails: Seq<Seq<char>>,
    pub target_domains: Seq<Seq<char>>,
    pub webhook_url: Seq<char>,
    pub smtp_bind_address: Seq<char>,
    pub smtp_port: u16,
    pub health_check_bind_address: Seq<char>,
    pub health_check_port: u16,
    pub header_prefixes: Seq<Seq<char>>,
    pub webhook_timeout_secs: u64,
    pub webhook_max_retries: u32,
    pub circuit_breaker_threshold: u32,
    pub circuit_breaker_reset_secs: u64,
    pub webhook_signing_secret: Option<Seq<char>>,
    pub cedar_policies_path: Seq<char>,
    pub cedar_entities_path: Option<Seq<char>>,
    pub max_message_size_bytes: u64,
    pub max_attachment_size_bytes: u64,
    pub attachment_delivery: DeliveryView,
    pub dmarc_mode: DmarcMode,
    pub dmarc_dns_timeout_secs: u64,
    pub dmarc_dns_servers: Seq<Seq<char>>,
    pub dmarc_temperror_action: DmarcTempErrorAction,
    pub max_concurrent_per_ip: u32,
    pub max_unknown_rcpts_per_session: u32,
}

impl View for S3Settings {
    type V = S3View;

    open spec fn view(&self) -> S3View {
        S3View {
            bucket: self.bucket@,
            region: self.region@,
            endpoint: optional_text(self.endpoint),
            key_prefix: self.key_prefix@,
            presign_ttl_secs: self.presign_ttl_secs,
        }
    }
}

impl View for AttachmentDelivery {
    type V = DeliveryView;

    open spec fn view(&self) -> DeliveryView {
        match self {
            AttachmentDelivery::Inline => DeliveryView::Inline,
            AttachmentDelivery::S3(s3) => DeliveryView::S3(s3@),
        }
    }
}

impl View for Config {
    type V = ConfigView;

    open spec fn view(&self) -> ConfigView {
        ConfigView {
            target_emails: texts(self.target_emails@),
            target_domains: texts(self.target_domains@),
            webhook_url: self.webhook_url@,
            smtp_bind_address: self.smtp_bind_address@,
            smtp_port: self.smtp_port,
            health_check_bind_address: self.health_check_bind_address@,
            health_check_port: self.health_check_port,
            header_prefixes: texts(self.header_prefixes@),
            webhook_timeout_secs: self.webhook_timeout_secs,
            webhook_max_retries: self.webhook_max_retries,
            circuit_breaker_threshold: self.circuit_breaker_threshold,
            circuit_breaker_reset_secs: self.circuit_breaker_reset_secs,
            webhook_signing_secret: optional_text(self.webhook_signing_secret),
            cedar_policies_path: self.cedar_policies_path@,
            cedar_entities_path: optional_text(self.cedar_entities_path),
            max_message_size_bytes: self.max_message_size_bytes,
            max_attachment_size_bytes: self.max_attachment_size_bytes,
            attachment_delivery: self.attachment_delivery@,
            dmarc_mode: self.dmarc_mode,
            dmarc_dns_timeout_secs: self.dmarc_dns_timeout_secs,
            dmarc_dns_servers: texts(self.dmarc_dns_servers@),
            dmarc_temperror_action: self.dmarc_temperror_action,
            max_concurrent_per_ip: self.max_concurrent_per_ip,
            max_unknown_rcpts_per_session: self.max_unknown_rcpts_per_session,
        }
    }
}

} // verus!
