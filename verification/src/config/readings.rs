//! What was read of the settings, one by one: for a log that shows how far the reading came.

use crate::config::env::{value_of, EnvVars};
use crate::config::error::{ConfigError, ConfigErrorView};
use crate::config::load::{
    attachment_delivery, dmarc_mode, first_error, list_of, number, parse_attachment_delivery,
    parse_dmarc_mode, parse_dmarc_temperror_action, port, positive, read_list, read_number,
    read_port, read_positive, read_required, read_text_or, required, signing_secret,
    targets_error, temperror_action, text_of, text_or, Vars,
};
use crate::config::setting::Setting;
use crate::config::{AttachmentDelivery, DeliveryView, DmarcMode, DmarcTempErrorAction};
use crate::text::texts;
use vstd::prelude::*;

verus! {

/// The value of a setting.
#[derive(Debug, Clone)]
pub enum Value {
    List(Vec<String>),
    Text(String),
    Number(u64),
    /// A secret: only whether there is one.
    Secret(bool),
    Delivery(AttachmentDelivery),
    DmarcMode(DmarcMode),
    TempErrorAction(DmarcTempErrorAction),
}

/// The contents of [`Value`].
#[verifier::ext_equal]
pub enum ValueView {
    List(Seq<Seq<char>>),
    Text(Seq<char>),
    Number(nat),
    Secret(bool),
    Delivery(DeliveryView),
    DmarcMode(DmarcMode),
    TempErrorAction(DmarcTempErrorAction),
}

impl View for Value {
    type V = ValueView;

    open spec fn view(&self) -> ValueView {
        match self {
            Value::List(items) => ValueView::List(texts(items@)),
            Value::Text(text) => ValueView::Text(text@),
            Value::Number(n) => ValueView::Number(*n as nat),
            Value::Secret(given) => ValueView::Secret(*given),
            Value::Delivery(delivery) => ValueView::Delivery(delivery@),
            Value::DmarcMode(mode) => ValueView::DmarcMode(*mode),
            Value::TempErrorAction(action) => ValueView::TempErrorAction(*action),
        }
    }
}

/// A setting that was read.
#[derive(Debug, Clone)]
pub struct Reading {
    pub setting: Setting,
    pub value: Value,
    /// Whether the variable was set; if not, the value is the default.
    pub is_set: bool,
}

/// The contents of [`Reading`].
#[verifier::ext_equal]
pub struct ReadingView {
    pub setting: Setting,
    pub value: ValueView,
    pub is_set: bool,
}

impl View for Reading {
    type V = ReadingView;

    open spec fn view(&self) -> ReadingView {
        ReadingView { setting: self.setting, value: self.value@, is_set: self.is_set }
    }
}

/// The settings in the order in which they are read. Those of S3 are read with the delivery of
/// attachments.
pub open spec fn reading_order() -> Seq<Setting> {
    seq![
        Setting::TargetEmails,
        Setting::TargetDomains,
        Setting::WebhookUrl,
        Setting::CedarPolicies,
        Setting::CedarEntities,
        Setting::BindAddress,
        Setting::Port,
        Setting::HealthBindAddress,
        Setting::HealthPort,
        Setting::HeaderPrefix,
        Setting::WebhookTimeout,
        Setting::WebhookMaxRetries,
        Setting::CircuitBreakerThreshold,
        Setting::CircuitBreakerReset,
        Setting::WebhookSigningSecret,
        Setting::MaxMessageSize,
        Setting::MaxAttachmentSize,
        Setting::AttachmentDelivery,
        Setting::DmarcMode,
        Setting::DmarcDnsTimeout,
        Setting::DmarcDnsServers,
        Setting::DmarcTempErrorAction,
        Setting::MaxConcurrentPerIp,
        Setting::MaxUnknownRcptsPerSession,
    ]
}

/// A value that is always there.
pub open spec fn present<T>(
    r: Result<T, ConfigErrorView>,
    value: spec_fn(T) -> ValueView,
) -> Result<Option<ValueView>, ConfigErrorView> {
    match r {
        Ok(v) => Ok(Some(value(v))),
        Err(e) => Err(e),
    }
}

/// What is read of a setting; nothing where it has neither a value nor a default.
pub open spec fn value_read(vars: Vars, setting: Setting) -> Result<
    Option<ValueView>,
    ConfigErrorView,
> {
    match setting {
        Setting::TargetEmails | Setting::TargetDomains => match targets_error(vars) {
            Some(e) => Err(e),
            None => Ok(Some(ValueView::List(list_of(vars, setting)))),
        },
        Setting::HeaderPrefix | Setting::DmarcDnsServers => Ok(
            Some(ValueView::List(list_of(vars, setting))),
        ),
        Setting::WebhookUrl | Setting::CedarPolicies => present(
            required(vars, setting),
            |text: Seq<char>| ValueView::Text(text),
        ),
        Setting::BindAddress | Setting::HealthBindAddress => Ok(
            Some(ValueView::Text(text_or(vars, setting, "0.0.0.0"@))),
        ),
        Setting::Port | Setting::HealthPort => present(
            port(vars, setting),
            |n: nat| ValueView::Number(n),
        ),
        Setting::MaxMessageSize | Setting::MaxAttachmentSize | Setting::DmarcDnsTimeout => present(
            positive(vars, setting),
            |n: nat| ValueView::Number(n),
        ),
        Setting::WebhookTimeout
        | Setting::WebhookMaxRetries
        | Setting::CircuitBreakerThreshold
        | Setting::CircuitBreakerReset
        | Setting::MaxConcurrentPerIp
        | Setting::MaxUnknownRcptsPerSession => present(
            number(vars, setting),
            |n: nat| ValueView::Number(n),
        ),
        Setting::WebhookSigningSecret => Ok(Some(ValueView::Secret(signing_secret(vars) is Some))),
        Setting::AttachmentDelivery => present(
            attachment_delivery(vars),
            |d: DeliveryView| ValueView::Delivery(d),
        ),
        Setting::DmarcMode => present(dmarc_mode(vars), |m: DmarcMode| ValueView::DmarcMode(m)),
        Setting::DmarcTempErrorAction => present(
            temperror_action(vars),
            |a: DmarcTempErrorAction| ValueView::TempErrorAction(a),
        ),
        Setting::CedarEntities
        | Setting::S3Bucket
        | Setting::S3Region
        | Setting::S3Endpoint
        | Setting::S3KeyPrefix
        | Setting::S3PresignTtl => match text_of(vars, setting) {
            Some(text) => Ok(Some(ValueView::Text(text))),
            None => Ok(None),
        },
    }
}

/// What is read from the setting at position `i` on, up to the first that is wrong.
pub open spec fn readings_from(vars: Vars, i: int) -> Seq<ReadingView>
    decreases reading_order().len() - i,
{
    if i < 0 || i >= reading_order().len() {
        Seq::empty()
    } else {
        let setting = reading_order()[i];
        match value_read(vars, setting) {
            Ok(Some(value)) => seq![
                ReadingView { setting, value, is_set: text_of(vars, setting) is Some },
            ] + readings_from(vars, i + 1),
            Ok(None) => readings_from(vars, i + 1),
            Err(_) => Seq::empty(),
        }
    }
}

/// What is wrong first from the setting at position `i` on.
pub open spec fn error_from(vars: Vars, i: int) -> Option<ConfigErrorView>
    decreases reading_order().len() - i,
{
    if i < 0 || i >= reading_order().len() {
        None
    } else {
        match value_read(vars, reading_order()[i]) {
            Ok(_) => error_from(vars, i + 1),
            Err(e) => Some(e),
        }
    }
}

fn order() -> (r: Vec<Setting>)
    ensures
        r@ == reading_order(),
{
    let r = vec![
        Setting::TargetEmails,
        Setting::TargetDomains,
        Setting::WebhookUrl,
        Setting::CedarPolicies,
        Setting::CedarEntities,
        Setting::BindAddress,
        Setting::Port,
        Setting::HealthBindAddress,
        Setting::HealthPort,
        Setting::HeaderPrefix,
        Setting::WebhookTimeout,
        Setting::WebhookMaxRetries,
        Setting::CircuitBreakerThreshold,
        Setting::CircuitBreakerReset,
        Setting::WebhookSigningSecret,
        Setting::MaxMessageSize,
        Setting::MaxAttachmentSize,
        Setting::AttachmentDelivery,
        Setting::DmarcMode,
        Setting::DmarcDnsTimeout,
        Setting::DmarcDnsServers,
        Setting::DmarcTempErrorAction,
        Setting::MaxConcurrentPerIp,
        Setting::MaxUnknownRcptsPerSession,
    ];
    assert(r@ =~= reading_order());
    r
}

/// Reads one setting.
fn read_value(env: &EnvVars, setting: Setting) -> (r: Result<Option<Value>, ConfigError>)
    ensures
        match r {
            Ok(Some(value)) => value_read(env@, setting) == Ok::<_, ConfigErrorView>(Some(value@)),
            Ok(None) => value_read(env@, setting) == Ok::<_, ConfigErrorView>(None::<ValueView>),
            Err(e) => value_read(env@, setting) == Err::<Option<ValueView>, _>(e@),
        },
{
    match setting {
        Setting::TargetEmails | Setting::TargetDomains => {
            let emails = read_list(env, Setting::TargetEmails);
            let domains = read_list(env, Setting::TargetDomains);
            if emails.len() == 0 && domains.len() == 0 {
                Err(ConfigError::NoTargets)
            } else if setting == Setting::TargetEmails {
                Ok(Some(Value::List(emails)))
            } else {
                Ok(Some(Value::List(domains)))
            }
        },
        Setting::HeaderPrefix | Setting::DmarcDnsServers => Ok(
            Some(Value::List(read_list(env, setting))),
        ),
        Setting::WebhookUrl | Setting::CedarPolicies => match read_required(env, setting) {
            Ok(text) => Ok(Some(Value::Text(text))),
            Err(e) => Err(e),
        },
        Setting::BindAddress | Setting::HealthBindAddress => Ok(
            Some(Value::Text(read_text_or(env, setting, "0.0.0.0"))),
        ),
        Setting::Port | Setting::HealthPort => match read_port(env, setting) {
            Ok(n) => Ok(Some(Value::Number(n as u64))),
            Err(e) => Err(e),
        },
        Setting::MaxMessageSize | Setting::MaxAttachmentSize | Setting::DmarcDnsTimeout =>
            match read_positive(env, setting) {
                Ok(n) => Ok(Some(Value::Number(n))),
                Err(e) => Err(e),
            },
        Setting::WebhookTimeout
        | Setting::WebhookMaxRetries
        | Setting::CircuitBreakerThreshold
        | Setting::CircuitBreakerReset
        | Setting::MaxConcurrentPerIp
        | Setting::MaxUnknownRcptsPerSession => match read_number(env, setting) {
            Ok(n) => Ok(Some(Value::Number(n))),
            Err(e) => Err(e),
        },
        Setting::WebhookSigningSecret => Ok(
            Some(
                Value::Secret(
                    match env.text(setting) {
                        Some(secret) => !secret.as_str().is_empty(),
                        None => false,
                    },
                ),
            ),
        ),
        Setting::AttachmentDelivery => match parse_attachment_delivery(env) {
            Ok(delivery) => Ok(Some(Value::Delivery(delivery))),
            Err(e) => Err(e),
        },
        Setting::DmarcMode => match parse_dmarc_mode(env) {
            Ok(mode) => Ok(Some(Value::DmarcMode(mode))),
            Err(e) => Err(e),
        },
        Setting::DmarcTempErrorAction => match parse_dmarc_temperror_action(env) {
            Ok(action) => Ok(Some(Value::TempErrorAction(action))),
            Err(e) => Err(e),
        },
        Setting::CedarEntities
        | Setting::S3Bucket
        | Setting::S3Region
        | Setting::S3Endpoint
        | Setting::S3KeyPrefix
        | Setting::S3PresignTtl => match env.text(setting) {
            Some(text) => Ok(Some(Value::Text(text))),
            None => Ok(None),
        },
    }
}

/// Every setting that is read before the first that is wrong, in the order of reading.
pub fn readings(env: &EnvVars) -> (r: Vec<Reading>)
    ensures
        r@.map_values(|reading: Reading| reading@) == readings_from(env@, 0),
{
    let settings = order();
    let mut r: Vec<Reading> = Vec::new();
    let mut i: usize = 0;
    let ghost view = |reading: Reading| reading@;
    assert(r@.map_values(view) + readings_from(env@, 0) == readings_from(env@, 0));
    while i < settings.len()
        invariant
            i <= settings.len(),
            settings@ == reading_order(),
            view == (|reading: Reading| reading@),
            readings_from(env@, 0) == r@.map_values(view) + readings_from(env@, i as int),
        decreases settings.len() - i,
    {
        let setting = settings[i];
        let ghost before = r@.map_values(view);
        match read_value(env, setting) {
            Ok(Some(value)) => {
                let is_set = env.text(setting).is_some();
                let reading = Reading { setting, value, is_set };
                r.push(reading);
                assert(r@.map_values(view) == before.push(reading@));
                assert(before.push(reading@) + readings_from(env@, i + 1) == before + (seq![
                    reading@,
                ] + readings_from(env@, i + 1)));
            },
            Ok(None) => {},
            Err(_) => {
                assert(before + Seq::<ReadingView>::empty() == before);
                return r;
            },
        }
        i += 1;
    }
    assert(r@.map_values(view) + Seq::<ReadingView>::empty() == r@.map_values(view));
    r
}

/// What is wrong first in the order of reading is what the reading of all settings reports.
pub proof fn law_readings_end_at_first_error(vars: Vars)
    ensures
        error_from(vars, 0) == first_error(vars),
{
    reveal_with_fuel(error_from, 25);
}

proof fn lemma_reported(vars: Vars, from: int, i: int)
    requires
        0 <= from <= i < reading_order().len(),
        error_from(vars, from) is None,
        value_read(vars, reading_order()[i]) matches Ok(Some(_)),
    ensures
        readings_from(vars, from).contains(
            ReadingView {
                setting: reading_order()[i],
                value: value_read(vars, reading_order()[i])->Ok_0->0,
                is_set: text_of(vars, reading_order()[i]) is Some,
            },
        ),
    decreases i - from,
{
    let setting = reading_order()[i];
    let reading = ReadingView {
        setting,
        value: value_read(vars, setting)->Ok_0->0,
        is_set: text_of(vars, setting) is Some,
    };
    let all = readings_from(vars, from);
    if from == i {
        assert(all[0] == reading);
    } else {
        lemma_reported(vars, from + 1, i);
        let rest = readings_from(vars, from + 1);
        let k = choose|k: int| 0 <= k < rest.len() && rest[k] == reading;
        if value_read(vars, reading_order()[from])->Ok_0 is Some {
            assert(all[k + 1] == reading);
        }
    }
}

/// Where nothing is wrong, every setting that has a value is reported with it.
pub proof fn law_all_settings_reported(vars: Vars, i: int)
    requires
        first_error(vars) is None,
        0 <= i < reading_order().len(),
        value_read(vars, reading_order()[i]) matches Ok(Some(_)),
    ensures
        readings_from(vars, 0).contains(
            ReadingView {
                setting: reading_order()[i],
                value: value_read(vars, reading_order()[i])->Ok_0->0,
                is_set: text_of(vars, reading_order()[i]) is Some,
            },
        ),
{
    law_readings_end_at_first_error(vars);
    lemma_reported(vars, 0, i);
}

proof fn lemma_secret_not_read(a: Vars, b: Vars, i: int)
    requires
        forall|setting: Setting|
            setting != Setting::WebhookSigningSecret ==> #[trigger] value_of(a, setting)
                == value_of(b, setting),
        text_of(a, Setting::WebhookSigningSecret) is Some == text_of(
            b,
            Setting::WebhookSigningSecret,
        ) is Some,
        signing_secret(a) is Some == signing_secret(b) is Some,
        0 <= i <= reading_order().len(),
    ensures
        readings_from(a, i) == readings_from(b, i),
    decreases reading_order().len() - i,
{
    if i < reading_order().len() {
        lemma_secret_not_read(a, b, i + 1);
        let setting = reading_order()[i];
        assert(value_of(a, Setting::TargetEmails) == value_of(b, Setting::TargetEmails));
        assert(value_of(a, Setting::TargetDomains) == value_of(b, Setting::TargetDomains));
        assert(value_of(a, Setting::S3Bucket) == value_of(b, Setting::S3Bucket));
        assert(value_of(a, Setting::S3Region) == value_of(b, Setting::S3Region));
        assert(value_of(a, Setting::S3Endpoint) == value_of(b, Setting::S3Endpoint));
        assert(value_of(a, Setting::S3KeyPrefix) == value_of(b, Setting::S3KeyPrefix));
        assert(value_of(a, Setting::S3PresignTtl) == value_of(b, Setting::S3PresignTtl));
        if setting != Setting::WebhookSigningSecret {
            assert(value_of(a, setting) == value_of(b, setting));
        }
        assert(value_read(a, setting) == value_read(b, setting));
    }
}

/// What is reported does not depend on the signing secret, but for whether there is one.
pub proof fn law_secret_not_reported(a: Vars, b: Vars)
    requires
        forall|setting: Setting|
            setting != Setting::WebhookSigningSecret ==> #[trigger] value_of(a, setting)
                == value_of(b, setting),
        text_of(a, Setting::WebhookSigningSecret) is Some == text_of(
            b,
            Setting::WebhookSigningSecret,
        ) is Some,
        signing_secret(a) is Some == signing_secret(b) is Some,
    ensures
        readings_from(a, 0) == readings_from(b, 0),
{
    lemma_secret_not_read(a, b, 0);
}

} // verus!
