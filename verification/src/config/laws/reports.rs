//! What is told of the settings that were read.

use crate::config::env::{lookup, EnvVars};
use crate::config::error::ConfigErrorView;
use crate::config::load::{text_of, Vars};
use crate::config::readings::{
    error_from, law_all_settings_reported, law_readings_end_at_first_error, reading_order, readings,
    readings_from, value_read, Reading, ReadingView, Value,
};
use crate::config::setting::{variable_name, Setting};
use crate::config::{Config, ConfigError};
use crate::text::{optional_text, texts};
use vstd::prelude::*;

verus! {

/// Whether a value that was told is the one of the settings.
pub open spec fn is_told_right(config: Config, setting: Setting, value: Value) -> bool {
    match (setting, value) {
        (Setting::TargetEmails, Value::List(list)) => texts(list@) == texts(config.target_emails@),
        (Setting::TargetDomains, Value::List(list)) => texts(list@) == texts(
            config.target_domains@,
        ),
        (Setting::WebhookUrl, Value::Text(text)) => text@ == config.webhook_url@,
        (Setting::CedarPolicies, Value::Text(text)) => text@ == config.cedar_policies_path@,
        (Setting::CedarEntities, Value::Text(text)) => config.cedar_entities_path matches Some(path)
            && text@ == path@,
        (Setting::BindAddress, Value::Text(text)) => text@ == config.smtp_bind_address@,
        (Setting::Port, Value::Number(n)) => n == config.smtp_port,
        (Setting::HealthBindAddress, Value::Text(text)) => text@
            == config.health_check_bind_address@,
        (Setting::HealthPort, Value::Number(n)) => n == config.health_check_port,
        (Setting::HeaderPrefix, Value::List(list)) => texts(list@) == texts(
            config.header_prefixes@,
        ),
        (Setting::WebhookTimeout, Value::Number(n)) => n == config.webhook_timeout_secs,
        (Setting::WebhookMaxRetries, Value::Number(n)) => n == config.webhook_max_retries,
        (Setting::CircuitBreakerThreshold, Value::Number(n)) => n
            == config.circuit_breaker_threshold,
        (Setting::CircuitBreakerReset, Value::Number(n)) => n == config.circuit_breaker_reset_secs,
        (Setting::WebhookSigningSecret, Value::Secret(given)) => given == (
        config.webhook_signing_secret is Some),
        (Setting::MaxMessageSize, Value::Number(n)) => n == config.max_message_size_bytes,
        (Setting::MaxAttachmentSize, Value::Number(n)) => n == config.max_attachment_size_bytes,
        (Setting::AttachmentDelivery, Value::Delivery(delivery)) => delivery@
            == config.attachment_delivery@,
        (Setting::DmarcMode, Value::DmarcMode(mode)) => mode == config.dmarc_mode,
        (Setting::DmarcDnsTimeout, Value::Number(n)) => n == config.dmarc_dns_timeout_secs,
        (Setting::DmarcDnsServers, Value::List(list)) => texts(list@) == texts(
            config.dmarc_dns_servers@,
        ),
        (Setting::DmarcTempErrorAction, Value::TempErrorAction(action)) => action
            == config.dmarc_temperror_action,
        (Setting::MaxConcurrentPerIp, Value::Number(n)) => n == config.max_concurrent_per_ip,
        (Setting::MaxUnknownRcptsPerSession, Value::Number(n)) => n
            == config.max_unknown_rcpts_per_session,
        _ => false,
    }
}

/// What is told comes from the settings in their order.
proof fn lemma_reading_at(vars: Vars, from: int, k: int) -> (i: int)
    requires
        0 <= from <= reading_order().len(),
        0 <= k < readings_from(vars, from).len(),
    ensures
        from <= i < reading_order().len(),
        readings_from(vars, from)[k].setting == reading_order()[i],
        value_read(vars, reading_order()[i]) == Ok::<_, ConfigErrorView>(
            Some(readings_from(vars, from)[k].value),
        ),
        readings_from(vars, from)[k].is_set == text_of(vars, reading_order()[i]) is Some,
    decreases reading_order().len() - from,
{
    let all = readings_from(vars, from);
    let setting = reading_order()[from];
    match value_read(vars, setting) {
        Ok(Some(value)) => {
            if k == 0 {
                from
            } else {
                assert(all[k] == readings_from(vars, from + 1)[k - 1]);
                lemma_reading_at(vars, from + 1, k - 1)
            }
        },
        _ => lemma_reading_at(vars, from + 1, k),
    }
}

/// Each value that is told is the one that the settings have, and it is told whether the variable
/// is set.
pub proof fn law_told_right(env: EnvVars, config: Config, told: Vec<Reading>, k: int)
    requires
        call_ensures(readings, (&env,), told),
        call_ensures(Config::from_env, (&env,), Ok::<_, ConfigError>(config)),
        0 <= k < told.len(),
    ensures
        is_told_right(config, told[k].setting, told[k].value),
        told[k].is_set <==> lookup(env@, variable_name(told[k].setting)) is Ok,
{
    let views = told@.map_values(|reading: Reading| reading@);
    assert(views == readings_from(env@, 0));
    assert(views[k] == told[k]@);
    let i = lemma_reading_at(env@, 0, k);
    let setting = told[k].setting;
    assert(setting == reading_order()[i]);
    lemma_not_s3(i);
    assert(config@.cedar_entities_path == optional_text(config.cedar_entities_path));
    assert(config@.webhook_signing_secret == optional_text(
        config.webhook_signing_secret,
    ));
}

/// The settings of S3 are not told one by one.
proof fn lemma_not_s3(i: int)
    requires
        0 <= i < reading_order().len(),
    ensures
        reading_order()[i] != Setting::S3Bucket,
        reading_order()[i] != Setting::S3Region,
        reading_order()[i] != Setting::S3Endpoint,
        reading_order()[i] != Setting::S3KeyPrefix,
        reading_order()[i] != Setting::S3PresignTtl,
{
}

/// Where nothing is wrong, nothing that is read is.
proof fn lemma_nothing_wrong(vars: Vars, from: int, i: int)
    requires
        0 <= from <= i < reading_order().len(),
        error_from(vars, from) is None,
    ensures
        value_read(vars, reading_order()[i]) is Ok,
    decreases i - from,
{
    if from < i {
        lemma_nothing_wrong(vars, from + 1, i);
    }
}

/// Where settings are read, each of them is told, but for an entities file that is not set; those
/// of S3 are told together.
pub proof fn law_all_told(
    env: EnvVars,
    config: Config,
    told: Vec<Reading>,
    setting: Setting,
) -> (k: int)
    requires
        call_ensures(readings, (&env,), told),
        call_ensures(Config::from_env, (&env,), Ok::<_, ConfigError>(config)),
        match setting {
            Setting::S3Bucket
            | Setting::S3Region
            | Setting::S3Endpoint
            | Setting::S3KeyPrefix
            | Setting::S3PresignTtl => false,
            Setting::CedarEntities => config.cedar_entities_path is Some,
            _ => true,
        },
    ensures
        0 <= k < told.len(),
        told[k].setting == setting,
{
    let vars = env@;
    let i: int = match setting {
        Setting::TargetEmails => 0,
        Setting::TargetDomains => 1,
        Setting::WebhookUrl => 2,
        Setting::CedarPolicies => 3,
        Setting::CedarEntities => 4,
        Setting::BindAddress => 5,
        Setting::Port => 6,
        Setting::HealthBindAddress => 7,
        Setting::HealthPort => 8,
        Setting::HeaderPrefix => 9,
        Setting::WebhookTimeout => 10,
        Setting::WebhookMaxRetries => 11,
        Setting::CircuitBreakerThreshold => 12,
        Setting::CircuitBreakerReset => 13,
        Setting::WebhookSigningSecret => 14,
        Setting::MaxMessageSize => 15,
        Setting::MaxAttachmentSize => 16,
        Setting::AttachmentDelivery => 17,
        Setting::DmarcMode => 18,
        Setting::DmarcDnsTimeout => 19,
        Setting::DmarcDnsServers => 20,
        Setting::DmarcTempErrorAction => 21,
        Setting::MaxConcurrentPerIp => 22,
        Setting::MaxUnknownRcptsPerSession => 23,
        _ => 0,
    };
    assert(reading_order()[i] == setting);
    assert(config@.cedar_entities_path == optional_text(config.cedar_entities_path));
    law_readings_end_at_first_error(vars);
    lemma_nothing_wrong(vars, 0, i);
    law_all_settings_reported(vars, i);
    let views = told@.map_values(|reading: Reading| reading@);
    assert(views == readings_from(vars, 0));
    let reading = ReadingView {
        setting,
        value: value_read(vars, setting)->Ok_0->0,
        is_set: text_of(vars, setting) is Some,
    };
    let k = choose|k: int| 0 <= k < views.len() && views[k] == reading;
    assert(views[k] == told[k]@);
    k
}

} // verus!
