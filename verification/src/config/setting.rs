//! The environment variables that settings are read from.

use vstd::prelude::*;

verus! {

/// An environment variable that holds a setting.
#[derive(Debug, Clone, Copy, PartialEq, Eq, Structural)]
pub enum Setting {
    TargetEmails,
    TargetDomains,
    WebhookUrl,
    CedarPolicies,
    CedarEntities,
    BindAddress,
    Port,
    HealthBindAddress,
    HealthPort,
    HeaderPrefix,
    WebhookTimeout,
    WebhookMaxRetries,
    CircuitBreakerThreshold,
    CircuitBreakerReset,
    WebhookSigningSecret,
    MaxMessageSize,
    MaxAttachmentSize,
    AttachmentDelivery,
    S3Bucket,
    S3Region,
    S3Endpoint,
    S3KeyPrefix,
    S3PresignTtl,
    DmarcMode,
    DmarcDnsTimeout,
    DmarcDnsServers,
    DmarcTempErrorAction,
    MaxConcurrentPerIp,
    MaxUnknownRcptsPerSession,
}

/// The name of the variable.
pub open spec fn variable_name(setting: Setting) -> Seq<char> {
    match setting {
        Setting::TargetEmails => "MAIL_LASER_TARGET_EMAILS"@,
        Setting::TargetDomains => "MAIL_LASER_TARGET_DOMAINS"@,
        Setting::WebhookUrl => "MAIL_LASER_WEBHOOK_URL"@,
        Setting::CedarPolicies => "MAIL_LASER_CEDAR_POLICIES"@,
        Setting::CedarEntities => "MAIL_LASER_CEDAR_ENTITIES"@,
        Setting::BindAddress => "MAIL_LASER_BIND_ADDRESS"@,
        Setting::Port => "MAIL_LASER_PORT"@,
        Setting::HealthBindAddress => "MAIL_LASER_HEALTH_BIND_ADDRESS"@,
        Setting::HealthPort => "MAIL_LASER_HEALTH_PORT"@,
        Setting::HeaderPrefix => "MAIL_LASER_HEADER_PREFIX"@,
        Setting::WebhookTimeout => "MAIL_LASER_WEBHOOK_TIMEOUT"@,
        Setting::WebhookMaxRetries => "MAIL_LASER_WEBHOOK_MAX_RETRIES"@,
        Setting::CircuitBreakerThreshold => "MAIL_LASER_CIRCUIT_BREAKER_THRESHOLD"@,
        Setting::CircuitBreakerReset => "MAIL_LASER_CIRCUIT_BREAKER_RESET"@,
        Setting::WebhookSigningSecret => "MAIL_LASER_WEBHOOK_SIGNING_SECRET"@,
        Setting::MaxMessageSize => "MAIL_LASER_MAX_MESSAGE_SIZE"@,
        Setting::MaxAttachmentSize => "MAIL_LASER_MAX_ATTACHMENT_SIZE"@,
        Setting::AttachmentDelivery => "MAIL_LASER_ATTACHMENT_DELIVERY"@,
        Setting::S3Bucket => "MAIL_LASER_S3_BUCKET"@,
        Setting::S3Region => "MAIL_LASER_S3_REGION"@,
        Setting::S3Endpoint => "MAIL_LASER_S3_ENDPOINT"@,
        Setting::S3KeyPrefix => "MAIL_LASER_S3_KEY_PREFIX"@,
        Setting::S3PresignTtl => "MAIL_LASER_S3_PRESIGN_TTL"@,
        Setting::DmarcMode => "MAIL_LASER_DMARC_MODE"@,
        Setting::DmarcDnsTimeout => "MAIL_LASER_DMARC_DNS_TIMEOUT"@,
        Setting::DmarcDnsServers => "MAIL_LASER_DMARC_DNS_SERVERS"@,
        Setting::DmarcTempErrorAction => "MAIL_LASER_DMARC_TEMPERROR_ACTION"@,
        Setting::MaxConcurrentPerIp => "MAIL_LASER_MAX_CONCURRENT_PER_IP"@,
        Setting::MaxUnknownRcptsPerSession => "MAIL_LASER_MAX_UNKNOWN_RCPTS_PER_SESSION"@,
    }
}

/// The number that an unset variable stands for.
pub open spec fn default_number(setting: Setting) -> u64 {
    match setting {
        Setting::Port => 2525,
        Setting::HealthPort => 8080,
        Setting::WebhookTimeout => 30,
        Setting::WebhookMaxRetries => 3,
        Setting::CircuitBreakerThreshold => 5,
        Setting::CircuitBreakerReset => 60,
        Setting::MaxMessageSize => 26_214_400,
        Setting::MaxAttachmentSize => 10_485_760,
        Setting::DmarcDnsTimeout => 5,
        Setting::MaxConcurrentPerIp => 10,
        Setting::MaxUnknownRcptsPerSession => 3,
        _ => 0,
    }
}

/// The largest number that a variable may hold.
pub open spec fn largest_number(setting: Setting) -> u64 {
    match setting {
        Setting::Port | Setting::HealthPort => u16::MAX as u64,
        Setting::WebhookMaxRetries
        | Setting::CircuitBreakerThreshold
        | Setting::MaxConcurrentPerIp
        | Setting::MaxUnknownRcptsPerSession => u32::MAX as u64,
        _ => u64::MAX,
    }
}

/// The name of the type of the numbers that a variable may hold.
pub open spec fn number_type(setting: Setting) -> Seq<char> {
    if largest_number(setting) == u16::MAX {
        "u16"@
    } else if largest_number(setting) == u32::MAX {
        "u32"@
    } else {
        "u64"@
    }
}

impl Setting {
    /// The name of the variable.
    pub fn variable(self) -> (r: &'static str)
        ensures
            r@ == variable_name(self),
    {
        match self {
            Setting::TargetEmails => "MAIL_LASER_TARGET_EMAILS",
            Setting::TargetDomains => "MAIL_LASER_TARGET_DOMAINS",
            Setting::WebhookUrl => "MAIL_LASER_WEBHOOK_URL",
            Setting::CedarPolicies => "MAIL_LASER_CEDAR_POLICIES",
            Setting::CedarEntities => "MAIL_LASER_CEDAR_ENTITIES",
            Setting::BindAddress => "MAIL_LASER_BIND_ADDRESS",
            Setting::Port => "MAIL_LASER_PORT",
            Setting::HealthBindAddress => "MAIL_LASER_HEALTH_BIND_ADDRESS",
            Setting::HealthPort => "MAIL_LASER_HEALTH_PORT",
            Setting::HeaderPrefix => "MAIL_LASER_HEADER_PREFIX",
            Setting::WebhookTimeout => "MAIL_LASER_WEBHOOK_TIMEOUT",
            Setting::WebhookMaxRetries => "MAIL_LASER_WEBHOOK_MAX_RETRIES",
            Setting::CircuitBreakerThreshold => "MAIL_LASER_CIRCUIT_BREAKER_THRESHOLD",
            Setting::CircuitBreakerReset => "MAIL_LASER_CIRCUIT_BREAKER_RESET",
            Setting::WebhookSigningSecret => "MAIL_LASER_WEBHOOK_SIGNING_SECRET",
            Setting::MaxMessageSize => "MAIL_LASER_MAX_MESSAGE_SIZE",
            Setting::MaxAttachmentSize => "MAIL_LASER_MAX_ATTACHMENT_SIZE",
            Setting::AttachmentDelivery => "MAIL_LASER_ATTACHMENT_DELIVERY",
            Setting::S3Bucket => "MAIL_LASER_S3_BUCKET",
            Setting::S3Region => "MAIL_LASER_S3_REGION",
            Setting::S3Endpoint => "MAIL_LASER_S3_ENDPOINT",
            Setting::S3KeyPrefix => "MAIL_LASER_S3_KEY_PREFIX",
            Setting::S3PresignTtl => "MAIL_LASER_S3_PRESIGN_TTL",
            Setting::DmarcMode => "MAIL_LASER_DMARC_MODE",
            Setting::DmarcDnsTimeout => "MAIL_LASER_DMARC_DNS_TIMEOUT",
            Setting::DmarcDnsServers => "MAIL_LASER_DMARC_DNS_SERVERS",
            Setting::DmarcTempErrorAction => "MAIL_LASER_DMARC_TEMPERROR_ACTION",
            Setting::MaxConcurrentPerIp => "MAIL_LASER_MAX_CONCURRENT_PER_IP",
            Setting::MaxUnknownRcptsPerSession => "MAIL_LASER_MAX_UNKNOWN_RCPTS_PER_SESSION",
        }
    }

    /// The number that an unset variable stands for.
    pub fn default_value(self) -> (r: u64)
        ensures
            r == default_number(self),
    {
        match self {
            Setting::Port => 2525,
            Setting::HealthPort => 8080,
            Setting::WebhookTimeout => 30,
            Setting::WebhookMaxRetries => 3,
            Setting::CircuitBreakerThreshold => 5,
            Setting::CircuitBreakerReset => 60,
            Setting::MaxMessageSize => 26_214_400,
            Setting::MaxAttachmentSize => 10_485_760,
            Setting::DmarcDnsTimeout => 5,
            Setting::MaxConcurrentPerIp => 10,
            Setting::MaxUnknownRcptsPerSession => 3,
            _ => 0,
        }
    }

    /// The largest number that a variable may hold.
    pub fn largest_value(self) -> (r: u64)
        ensures
            r == largest_number(self),
    {
        match self {
            Setting::Port | Setting::HealthPort => 65_535,
            Setting::WebhookMaxRetries
            | Setting::CircuitBreakerThreshold
            | Setting::MaxConcurrentPerIp
            | Setting::MaxUnknownRcptsPerSession => 4_294_967_295,
            _ => 18_446_744_073_709_551_615,
        }
    }

    /// The name of the type of the numbers that a variable may hold.
    pub fn integer_type(self) -> (r: &'static str)
        ensures
            r@ == number_type(self),
    {
        let largest: u64 = self.largest_value();
        if largest == 65_535 {
            "u16"
        } else if largest == 4_294_967_295 {
            "u32"
        } else {
            "u64"
        }
    }
}

} // verus!
