//! Reading the settings.

use crate::config::env::{value_of, EnvVars};
use crate::config::error::{ConfigError, ConfigErrorView};
use crate::config::setting::{default_number, largest_number, Setting};
use crate::config::{
    AttachmentDelivery, Config, ConfigView, DeliveryView, DmarcMode, DmarcTempErrorAction,
    S3Settings, S3View,
};
use crate::decimal::{parse_decimal, parsed, IntErrorKind};
use crate::text::{entries, lowercase, lowercased, same_text, split_entries, texts};
use vstd::prelude::*;

verus! {

/// The contents of an environment.
pub type Vars = Seq<(Seq<char>, Result<Seq<char>, Seq<char>>)>;

/// The value of a setting, where it has one.
pub open spec fn text_of(vars: Vars, setting: Setting) -> Option<Seq<char>> {
    match value_of(vars, setting) {
        Ok(value) => Some(value),
        Err(_) => None,
    }
}

/// The value of a setting, or `default`.
pub open spec fn text_or(vars: Vars, setting: Setting, default: Seq<char>) -> Seq<char> {
    match text_of(vars, setting) {
        Some(value) => value,
        None => default,
    }
}

/// A comma-separated list; an unset one is empty.
pub open spec fn list_of(vars: Vars, setting: Setting) -> Seq<Seq<char>> {
    match text_of(vars, setting) {
        Some(value) => entries(value),
        None => Seq::empty(),
    }
}

/// A setting that must have a value.
pub open spec fn required(vars: Vars, setting: Setting) -> Result<Seq<char>, ConfigErrorView> {
    match value_of(vars, setting) {
        Ok(value) => Ok(value),
        Err(cause) => Err(ConfigErrorView::Missing { setting, cause }),
    }
}

/// A number of the setting's type; an unset one has its default.
pub open spec fn plain_number(vars: Vars, setting: Setting) -> Result<nat, IntErrorKind> {
    match text_of(vars, setting) {
        Some(value) => parsed(value, largest_number(setting) as nat),
        None => Ok(default_number(setting) as nat),
    }
}

/// A port; the SMTP server's must not be zero.
pub open spec fn port(vars: Vars, setting: Setting) -> Result<nat, ConfigErrorView> {
    match plain_number(vars, setting) {
        Ok(n) => if setting == Setting::Port && n == 0 {
            Err(ConfigErrorView::Zero { setting })
        } else {
            Ok(n)
        },
        Err(cause) => Err(
            ConfigErrorView::InvalidPort { setting, value: text_of(vars, setting)->0, cause },
        ),
    }
}

/// A number.
pub open spec fn number(vars: Vars, setting: Setting) -> Result<nat, ConfigErrorView> {
    match plain_number(vars, setting) {
        Ok(n) => Ok(n),
        Err(cause) => Err(ConfigErrorView::InvalidNumber { setting, cause }),
    }
}

/// A number that must not be zero.
pub open spec fn positive(vars: Vars, setting: Setting) -> Result<nat, ConfigErrorView> {
    match number(vars, setting) {
        Ok(n) => if n == 0 {
            Err(ConfigErrorView::Zero { setting })
        } else {
            Ok(n)
        },
        Err(e) => Err(e),
    }
}

/// The DMARC mode that a lower-case text names.
pub open spec fn named_dmarc_mode(name: Seq<char>) -> Result<DmarcMode, ConfigErrorView> {
    if name == "off"@ {
        Ok(DmarcMode::Off)
    } else if name == "monitor"@ {
        Ok(DmarcMode::Monitor)
    } else if name == "enforce"@ {
        Ok(DmarcMode::Enforce)
    } else {
        Err(ConfigErrorView::UnknownChoice { setting: Setting::DmarcMode, value: name })
    }
}

/// The DMARC mode; `Off` where none is set.
pub open spec fn dmarc_mode(vars: Vars) -> Result<DmarcMode, ConfigErrorView> {
    match text_of(vars, Setting::DmarcMode) {
        Some(value) => named_dmarc_mode(lowercased(value)),
        None => Ok(DmarcMode::Off),
    }
}

/// The action on temporary errors that a lower-case text names.
pub open spec fn named_temperror_action(name: Seq<char>) -> Result<
    DmarcTempErrorAction,
    ConfigErrorView,
> {
    if name == "reject"@ {
        Ok(DmarcTempErrorAction::Reject)
    } else if name == "accept"@ {
        Ok(DmarcTempErrorAction::Accept)
    } else {
        Err(ConfigErrorView::UnknownChoice { setting: Setting::DmarcTempErrorAction, value: name })
    }
}

/// The action on temporary errors; `Reject` where none is set.
pub open spec fn temperror_action(vars: Vars) -> Result<DmarcTempErrorAction, ConfigErrorView> {
    match text_of(vars, Setting::DmarcTempErrorAction) {
        Some(value) => named_temperror_action(lowercased(value)),
        None => Ok(DmarcTempErrorAction::Reject),
    }
}

/// The lifetime of presigned URLs; none where it is not set.
pub open spec fn presign_ttl(vars: Vars) -> Result<Option<u64>, ConfigErrorView> {
    match text_of(vars, Setting::S3PresignTtl) {
        Some(_) => match positive(vars, Setting::S3PresignTtl) {
            Ok(n) => Ok(Some(n as u64)),
            Err(e) => Err(e),
        },
        None => Ok(None),
    }
}

/// The settings of the S3 backend: bucket and region are required.
pub open spec fn s3_settings(vars: Vars) -> Result<S3View, ConfigErrorView> {
    match (
        required(vars, Setting::S3Bucket),
        required(vars, Setting::S3Region),
        presign_ttl(vars),
    ) {
        (Err(e), _, _) => Err(e),
        (_, Err(e), _) => Err(e),
        (_, _, Err(e)) => Err(e),
        (Ok(bucket), Ok(region), Ok(presign_ttl_secs)) => Ok(
            S3View {
                bucket,
                region,
                endpoint: text_of(vars, Setting::S3Endpoint),
                key_prefix: text_or(vars, Setting::S3KeyPrefix, Seq::empty()),
                presign_ttl_secs,
            },
        ),
    }
}

/// The delivery of attachments that a lower-case text names.
pub open spec fn named_delivery(vars: Vars, name: Seq<char>) -> Result<
    DeliveryView,
    ConfigErrorView,
> {
    if name == "inline"@ {
        Ok(DeliveryView::Inline)
    } else if name == "s3"@ {
        match s3_settings(vars) {
            Ok(s3) => Ok(DeliveryView::S3(s3)),
            Err(e) => Err(e),
        }
    } else {
        Err(ConfigErrorView::UnknownChoice { setting: Setting::AttachmentDelivery, value: name })
    }
}

/// The delivery of attachments; inline where none is set.
pub open spec fn attachment_delivery(vars: Vars) -> Result<DeliveryView, ConfigErrorView> {
    match text_of(vars, Setting::AttachmentDelivery) {
        Some(value) => named_delivery(vars, lowercased(value)),
        None => Ok(DeliveryView::Inline),
    }
}

/// The signing secret; an empty one counts as none.
pub open spec fn signing_secret(vars: Vars) -> Option<Seq<char>> {
    match text_of(vars, Setting::WebhookSigningSecret) {
        Some(value) => if value.len() > 0 {
            Some(value)
        } else {
            None
        },
        None => None,
    }
}

/// Mail must be accepted for someone.
pub open spec fn targets_error(vars: Vars) -> Option<ConfigErrorView> {
    if list_of(vars, Setting::TargetEmails).len() == 0 && list_of(
        vars,
        Setting::TargetDomains,
    ).len() == 0 {
        Some(ConfigErrorView::NoTargets)
    } else {
        None
    }
}

/// The error of an outcome.
pub open spec fn error_of<T>(r: Result<T, ConfigErrorView>) -> Option<ConfigErrorView> {
    match r {
        Ok(_) => None,
        Err(e) => Some(e),
    }
}

/// The first of two errors.
pub open spec fn or_else(
    a: Option<ConfigErrorView>,
    b: Option<ConfigErrorView>,
) -> Option<ConfigErrorView> {
    if a is Some {
        a
    } else {
        b
    }
}

/// The first thing that is wrong with an environment, in the order in which settings are read.
pub open spec fn first_error(vars: Vars) -> Option<ConfigErrorView> {
    or_else(
        targets_error(vars),
        or_else(
            error_of(required(vars, Setting::WebhookUrl)),
            or_else(
                error_of(required(vars, Setting::CedarPolicies)),
                or_else(
                    error_of(port(vars, Setting::Port)),
                    or_else(
                        error_of(port(vars, Setting::HealthPort)),
                        or_else(resilience_error(vars), later_error(vars)),
                    ),
                ),
            ),
        ),
    )
}

/// The first thing that is wrong with how deliveries are retried.
pub open spec fn resilience_error(vars: Vars) -> Option<ConfigErrorView> {
    or_else(
        error_of(number(vars, Setting::WebhookTimeout)),
        or_else(
            error_of(number(vars, Setting::WebhookMaxRetries)),
            or_else(
                error_of(number(vars, Setting::CircuitBreakerThreshold)),
                error_of(number(vars, Setting::CircuitBreakerReset)),
            ),
        ),
    )
}

/// The first thing that is wrong with sizes, attachments, DMARC and connection limits.
pub open spec fn later_error(vars: Vars) -> Option<ConfigErrorView> {
    or_else(
        error_of(positive(vars, Setting::MaxMessageSize)),
        or_else(
            error_of(positive(vars, Setting::MaxAttachmentSize)),
            or_else(
                error_of(attachment_delivery(vars)),
                or_else(
                    error_of(dmarc_mode(vars)),
                    or_else(
                        error_of(positive(vars, Setting::DmarcDnsTimeout)),
                        or_else(
                            error_of(temperror_action(vars)),
                            or_else(
                                error_of(number(vars, Setting::MaxConcurrentPerIp)),
                                error_of(number(vars, Setting::MaxUnknownRcptsPerSession)),
                            ),
                        ),
                    ),
                ),
            ),
        ),
    )
}

/// The settings of an environment with which nothing is wrong.
pub open spec fn settings(vars: Vars) -> ConfigView {
    ConfigView {
        target_emails: list_of(vars, Setting::TargetEmails),
        target_domains: list_of(vars, Setting::TargetDomains),
        webhook_url: required(vars, Setting::WebhookUrl)->Ok_0,
        smtp_bind_address: text_or(vars, Setting::BindAddress, "0.0.0.0"@),
        smtp_port: port(vars, Setting::Port)->Ok_0 as u16,
        health_check_bind_address: text_or(vars, Setting::HealthBindAddress, "0.0.0.0"@),
        health_check_port: port(vars, Setting::HealthPort)->Ok_0 as u16,
        header_prefixes: list_of(vars, Setting::HeaderPrefix),
        webhook_timeout_secs: number(vars, Setting::WebhookTimeout)->Ok_0 as u64,
        webhook_max_retries: number(vars, Setting::WebhookMaxRetries)->Ok_0 as u32,
        circuit_breaker_threshold: number(vars, Setting::CircuitBreakerThreshold)->Ok_0 as u32,
        circuit_breaker_reset_secs: number(vars, Setting::CircuitBreakerReset)->Ok_0 as u64,
        webhook_signing_secret: signing_secret(vars),
        cedar_policies_path: required(vars, Setting::CedarPolicies)->Ok_0,
        cedar_entities_path: text_of(vars, Setting::CedarEntities),
        max_message_size_bytes: positive(vars, Setting::MaxMessageSize)->Ok_0 as u64,
        max_attachment_size_bytes: positive(vars, Setting::MaxAttachmentSize)->Ok_0 as u64,
        attachment_delivery: attachment_delivery(vars)->Ok_0,
        dmarc_mode: dmarc_mode(vars)->Ok_0,
        dmarc_dns_timeout_secs: positive(vars, Setting::DmarcDnsTimeout)->Ok_0 as u64,
        dmarc_dns_servers: list_of(vars, Setting::DmarcDnsServers),
        dmarc_temperror_action: temperror_action(vars)->Ok_0,
        max_concurrent_per_ip: number(vars, Setting::MaxConcurrentPerIp)->Ok_0 as u32,
        max_unknown_rcpts_per_session: number(
            vars,
            Setting::MaxUnknownRcptsPerSession,
        )->Ok_0 as u32,
    }
}

pub(crate) fn read_list(env: &EnvVars, setting: Setting) -> (r: Vec<String>)
    ensures
        texts(r@) == list_of(env@, setting),
{
    match env.text(setting) {
        Some(value) => split_entries(&value),
        None => {
            let r: Vec<String> = Vec::new();
            assert(texts(r@) == Seq::<Seq<char>>::empty());
            r
        },
    }
}

pub(crate) fn read_text_or(env: &EnvVars, setting: Setting, default: &str) -> (r: String)
    ensures
        r@ == text_or(env@, setting, default@),
{
    match env.text(setting) {
        Some(value) => value,
        None => default.to_owned(),
    }
}

pub(crate) fn read_required(env: &EnvVars, setting: Setting) -> (r: Result<String, ConfigError>)
    ensures
        match r {
            Ok(value) => required(env@, setting) == Ok::<_, ConfigErrorView>(value@),
            Err(e) => required(env@, setting) == Err::<Seq<char>, _>(e@),
        },
{
    match env.var(setting) {
        Ok(value) => Ok(value),
        Err(cause) => Err(ConfigError::Missing { setting, cause }),
    }
}

pub(crate) fn read_port(env: &EnvVars, setting: Setting) -> (r: Result<u16, ConfigError>)
    requires
        setting == Setting::Port || setting == Setting::HealthPort,
    ensures
        match r {
            Ok(n) => port(env@, setting) == Ok::<_, ConfigErrorView>(n as nat),
            Err(e) => port(env@, setting) == Err::<nat, _>(e@),
        },
{
    match env.text(setting) {
        Some(value) => match parse_decimal(&value, setting.largest_value()) {
            Ok(n) => if setting == Setting::Port && n == 0 {
                Err(ConfigError::Zero { setting })
            } else {
                Ok(n as u16)
            },
            Err(cause) => Err(ConfigError::InvalidPort { setting, value, cause }),
        },
        None => Ok(setting.default_value() as u16),
    }
}

pub(crate) fn read_number(env: &EnvVars, setting: Setting) -> (r: Result<u64, ConfigError>)
    requires
        default_number(setting) <= largest_number(setting),
    ensures
        match r {
            Ok(n) => number(env@, setting) == Ok::<_, ConfigErrorView>(n as nat) && n
                <= largest_number(setting),
            Err(e) => number(env@, setting) == Err::<nat, _>(e@),
        },
{
    match env.text(setting) {
        Some(value) => match parse_decimal(&value, setting.largest_value()) {
            Ok(n) => Ok(n),
            Err(cause) => Err(ConfigError::InvalidNumber { setting, cause }),
        },
        None => Ok(setting.default_value()),
    }
}

pub(crate) fn read_positive(env: &EnvVars, setting: Setting) -> (r: Result<u64, ConfigError>)
    requires
        default_number(setting) <= largest_number(setting),
    ensures
        match r {
            Ok(n) => positive(env@, setting) == Ok::<_, ConfigErrorView>(n as nat),
            Err(e) => positive(env@, setting) == Err::<nat, _>(e@),
        },
{
    match read_number(env, setting) {
        Ok(n) => if n == 0 {
            Err(ConfigError::Zero { setting })
        } else {
            Ok(n)
        },
        Err(e) => Err(e),
    }
}

/// The DMARC mode that a lower-case text names.
pub fn dmarc_mode_named(name: String) -> (r: Result<DmarcMode, ConfigError>)
    ensures
        match r {
            Ok(mode) => named_dmarc_mode(name@) == Ok::<_, ConfigErrorView>(mode),
            Err(e) => named_dmarc_mode(name@) == Err::<DmarcMode, _>(e@),
        },
{
    if same_text(&name, "off") {
        Ok(DmarcMode::Off)
    } else if same_text(&name, "monitor") {
        Ok(DmarcMode::Monitor)
    } else if same_text(&name, "enforce") {
        Ok(DmarcMode::Enforce)
    } else {
        Err(ConfigError::UnknownChoice { setting: Setting::DmarcMode, value: name })
    }
}

pub(crate) fn parse_dmarc_mode(env: &EnvVars) -> (r: Result<DmarcMode, ConfigError>)
    ensures
        match r {
            Ok(mode) => dmarc_mode(env@) == Ok::<_, ConfigErrorView>(mode),
            Err(e) => dmarc_mode(env@) == Err::<DmarcMode, _>(e@),
        },
{
    match env.text(Setting::DmarcMode) {
        Some(value) => dmarc_mode_named(lowercase(&value)),
        None => Ok(DmarcMode::Off),
    }
}

/// The action on temporary DMARC errors that a lower-case text names.
pub fn temperror_action_named(name: String) -> (r: Result<DmarcTempErrorAction, ConfigError>)
    ensures
        match r {
            Ok(action) => named_temperror_action(name@) == Ok::<_, ConfigErrorView>(action),
            Err(e) => named_temperror_action(name@) == Err::<DmarcTempErrorAction, _>(e@),
        },
{
    if same_text(&name, "reject") {
        Ok(DmarcTempErrorAction::Reject)
    } else if same_text(&name, "accept") {
        Ok(DmarcTempErrorAction::Accept)
    } else {
        Err(ConfigError::UnknownChoice { setting: Setting::DmarcTempErrorAction, value: name })
    }
}

pub(crate) fn parse_dmarc_temperror_action(env: &EnvVars) -> (r: Result<DmarcTempErrorAction, ConfigError>)
    ensures
        match r {
            Ok(action) => temperror_action(env@) == Ok::<_, ConfigErrorView>(action),
            Err(e) => temperror_action(env@) == Err::<DmarcTempErrorAction, _>(e@),
        },
{
    match env.text(Setting::DmarcTempErrorAction) {
        Some(value) => temperror_action_named(lowercase(&value)),
        None => Ok(DmarcTempErrorAction::Reject),
    }
}

fn parse_s3_settings(env: &EnvVars) -> (r: Result<S3Settings, ConfigError>)
    ensures
        match r {
            Ok(s3) => s3_settings(env@) == Ok::<_, ConfigErrorView>(s3@),
            Err(e) => s3_settings(env@) == Err::<S3View, _>(e@),
        },
{
    let bucket = match read_required(env, Setting::S3Bucket) {
        Ok(bucket) => bucket,
        Err(e) => {
            return Err(e);
        },
    };
    let region = match read_required(env, Setting::S3Region) {
        Ok(region) => region,
        Err(e) => {
            return Err(e);
        },
    };
    let presign_ttl_secs: Option<u64> = match env.text(Setting::S3PresignTtl) {
        Some(_) => match read_positive(env, Setting::S3PresignTtl) {
            Ok(n) => Some(n),
            Err(e) => {
                return Err(e);
            },
        },
        None => None,
    };
    let endpoint = env.text(Setting::S3Endpoint);
    let key_prefix = match env.text(Setting::S3KeyPrefix) {
        Some(value) => value,
        None => String::new(),
    };
    Ok(S3Settings { bucket, region, endpoint, key_prefix, presign_ttl_secs })
}

/// The delivery of attachments that a lower-case text names.
pub fn attachment_delivery_named(env: &EnvVars, name: String) -> (r: Result<
    AttachmentDelivery,
    ConfigError,
>)
    ensures
        match r {
            Ok(delivery) => named_delivery(env@, name@) == Ok::<_, ConfigErrorView>(delivery@),
            Err(e) => named_delivery(env@, name@) == Err::<DeliveryView, _>(e@),
        },
{
    if same_text(&name, "inline") {
        Ok(AttachmentDelivery::Inline)
    } else if same_text(&name, "s3") {
        match parse_s3_settings(env) {
            Ok(s3) => Ok(AttachmentDelivery::S3(s3)),
            Err(e) => Err(e),
        }
    } else {
        Err(ConfigError::UnknownChoice { setting: Setting::AttachmentDelivery, value: name })
    }
}

pub(crate) fn parse_attachment_delivery(env: &EnvVars) -> (r: Result<AttachmentDelivery, ConfigError>)
    ensures
        match r {
            Ok(delivery) => attachment_delivery(env@) == Ok::<_, ConfigErrorView>(delivery@),
            Err(e) => attachment_delivery(env@) == Err::<DeliveryView, _>(e@),
        },
{
    match env.text(Setting::AttachmentDelivery) {
        Some(value) => attachment_delivery_named(env, lowercase(&value)),
        None => Ok(AttachmentDelivery::Inline),
    }
}

impl Config {
    /// Reads the settings from environment variables.
    ///
    /// Every variable is named `MAIL_LASER_...`. Mail must be accepted for at least one address or
    /// domain, the webhook URL and the policy file must be set, and all else has a default. What
    /// is wrong first, in the order in which the settings are read, is reported.
    pub fn from_env(env: &EnvVars) -> (r: Result<Self, ConfigError>)
        ensures
            match r {
                Ok(config) => first_error(env@) is None && config@ == settings(env@),
                Err(e) => first_error(env@) == Some(e@),
            },
    {
        let target_emails = read_list(env, Setting::TargetEmails);
        let target_domains = read_list(env, Setting::TargetDomains);
        if target_emails.len() == 0 && target_domains.len() == 0 {
            return Err(ConfigError::NoTargets);
        }
        let webhook_url = match read_required(env, Setting::WebhookUrl) {
            Ok(url) => url,
            Err(e) => {
                return Err(e);
            },
        };
        let cedar_policies_path = match read_required(env, Setting::CedarPolicies) {
            Ok(path) => path,
            Err(e) => {
                return Err(e);
            },
        };
        let cedar_entities_path = env.text(Setting::CedarEntities);
        let smtp_bind_address = read_text_or(env, Setting::BindAddress, "0.0.0.0");
        let smtp_port: u16 = match read_port(env, Setting::Port) {
            Ok(n) => n,
            Err(e) => {
                return Err(e);
            },
        };
        let health_check_bind_address = read_text_or(env, Setting::HealthBindAddress, "0.0.0.0");
        let health_check_port: u16 = match read_port(env, Setting::HealthPort) {
            Ok(n) => n,
            Err(e) => {
                return Err(e);
            },
        };
        let header_prefixes = read_list(env, Setting::HeaderPrefix);
        let webhook_timeout_secs: u64 = match read_number(env, Setting::WebhookTimeout) {
            Ok(n) => n,
            Err(e) => {
                return Err(e);
            },
        };
        let webhook_max_retries: u32 = match read_number(env, Setting::WebhookMaxRetries) {
            Ok(n) => n as u32,
            Err(e) => {
                return Err(e);
            },
        };
        let circuit_breaker_threshold: u32 = match read_number(
            env,
            Setting::CircuitBreakerThreshold,
        ) {
            Ok(n) => n as u32,
            Err(e) => {
                return Err(e);
            },
        };
        let circuit_breaker_reset_secs: u64 = match read_number(env, Setting::CircuitBreakerReset) {
            Ok(n) => n,
            Err(e) => {
                return Err(e);
            },
        };
        let webhook_signing_secret = match env.text(Setting::WebhookSigningSecret) {
            Some(secret) => if secret.as_str().is_empty() {
                None
            } else {
                Some(secret)
            },
            None => None,
        };
        let max_message_size_bytes: u64 = match read_positive(env, Setting::MaxMessageSize) {
            Ok(n) => n,
            Err(e) => {
                return Err(e);
            },
        };
        let max_attachment_size_bytes: u64 = match read_positive(env, Setting::MaxAttachmentSize) {
            Ok(n) => n,
            Err(e) => {
                return Err(e);
            },
        };
        let attachment_delivery = match parse_attachment_delivery(env) {
            Ok(delivery) => delivery,
            Err(e) => {
                return Err(e);
            },
        };
        let dmarc_mode = match parse_dmarc_mode(env) {
            Ok(mode) => mode,
            Err(e) => {
                return Err(e);
            },
        };
        let dmarc_dns_timeout_secs: u64 = match read_positive(env, Setting::DmarcDnsTimeout) {
            Ok(n) => n,
            Err(e) => {
                return Err(e);
            },
        };
        let dmarc_dns_servers = read_list(env, Setting::DmarcDnsServers);
        let dmarc_temperror_action = match parse_dmarc_temperror_action(env) {
            Ok(action) => action,
            Err(e) => {
                return Err(e);
            },
        };
        let max_concurrent_per_ip: u32 = match read_number(env, Setting::MaxConcurrentPerIp) {
            Ok(n) => n as u32,
            Err(e) => {
                return Err(e);
            },
        };
        let max_unknown_rcpts_per_session: u32 = match read_number(
            env,
            Setting::MaxUnknownRcptsPerSession,
        ) {
            Ok(n) => n as u32,
            Err(e) => {
                return Err(e);
            },
        };
        Ok(
            Config {
                target_emails,
                target_domains,
                webhook_url,
                smtp_bind_address,
                smtp_port,
                health_check_bind_address,
                health_check_port,
                header_prefixes,
                webhook_timeout_secs,
                webhook_max_retries,
                circuit_breaker_threshold,
                circuit_breaker_reset_secs,
                webhook_signing_secret,
                cedar_policies_path,
                cedar_entities_path,
                max_message_size_bytes,
                max_attachment_size_bytes,
                attachment_delivery,
                dmarc_mode,
                dmarc_dns_timeout_secs,
                dmarc_dns_servers,
                dmarc_temperror_action,
                max_concurrent_per_ip,
                max_unknown_rcpts_per_session,
            },
        )
    }
}

} // verus!
