//! What holds of the settings, whatever the environment.

pub mod errors;
pub mod reports;
pub mod values;

use crate::config::error::ConfigErrorView;
use crate::config::laws::values::lemma_names;
use crate::config::load::{
    attachment_delivery, dmarc_mode, first_error, list_of, named_delivery, required, settings,
    temperror_action, text_of, Vars,
};
use crate::config::setting::{largest_number, Setting};
use crate::config::{ConfigView, DeliveryView, DmarcMode, DmarcTempErrorAction};
use crate::decimal::parsed;
use crate::text::{ascii_lowercase, is_white_space, law_entries_clean, lowercased};
use vstd::prelude::*;
use vstd::utf8::is_ascii_chars;

verus! {

/// Settings that were read can be used: mail is accepted for someone, no number that must not be
/// zero is, and a signing secret is not empty.
pub proof fn law_settings_usable(vars: Vars)
    requires
        first_error(vars) is None,
    ensures
        settings(vars).target_emails.len() > 0 || settings(vars).target_domains.len() > 0,
        settings(vars).smtp_port > 0,
        settings(vars).max_message_size_bytes > 0,
        settings(vars).max_attachment_size_bytes > 0,
        settings(vars).dmarc_dns_timeout_secs > 0,
        settings(vars).webhook_signing_secret matches Some(secret) ==> secret.len() > 0,
        settings(vars).attachment_delivery matches DeliveryView::S3(s3) ==> (
        s3.presign_ttl_secs matches Some(ttl) ==> ttl > 0),
{
}

/// Without the webhook's URL, the policy file or anyone to accept mail for, nothing is read.
pub proof fn law_required_variables(vars: Vars)
    requires
        ({
            ||| text_of(vars, Setting::WebhookUrl) is None
            ||| text_of(vars, Setting::CedarPolicies) is None
            ||| list_of(vars, Setting::TargetEmails).len() == 0 && list_of(
                vars,
                Setting::TargetDomains,
            ).len() == 0
        }),
    ensures
        first_error(vars) is Some,
{
}

/// Whether a variable of this name holds a number that is always read.
pub open spec fn holds_number(setting: Setting) -> bool {
    match setting {
        Setting::Port
        | Setting::HealthPort
        | Setting::WebhookTimeout
        | Setting::WebhookMaxRetries
        | Setting::CircuitBreakerThreshold
        | Setting::CircuitBreakerReset
        | Setting::MaxMessageSize
        | Setting::MaxAttachmentSize
        | Setting::DmarcDnsTimeout
        | Setting::MaxConcurrentPerIp
        | Setting::MaxUnknownRcptsPerSession => true,
        _ => false,
    }
}

/// A variable that should hold a number of its type and does not is an error.
pub proof fn law_bad_numbers_refused(vars: Vars, setting: Setting)
    requires
        holds_number(setting),
        text_of(vars, setting) matches Some(value) && parsed(
            value,
            largest_number(setting) as nat,
        ) is Err,
    ensures
        first_error(vars) is Some,
{
}

/// Attachments can go to S3 only where bucket and region are set.
pub proof fn law_s3_needs_bucket_and_region(vars: Vars)
    requires
        first_error(vars) is None,
        text_of(vars, Setting::AttachmentDelivery) matches Some(name) && lowercased(name) == "s3"@,
    ensures
        settings(vars).attachment_delivery matches DeliveryView::S3(s3) && text_of(
            vars,
            Setting::S3Bucket,
        ) == Some(s3.bucket) && text_of(vars, Setting::S3Region) == Some(s3.region),
{
    reveal_strlit("s3");
    reveal_strlit("inline");
    assert("s3"@.len() == 2);
    assert("inline"@.len() == 6);
}

/// The settings of S3 do not matter, however wrong, where attachments do not go there.
pub proof fn law_s3_settings_ignored_inline(vars: Vars)
    requires
        text_of(vars, Setting::AttachmentDelivery) matches Some(name) ==> lowercased(name)
            == "inline"@,
    ensures
        attachment_delivery(vars) matches Ok(DeliveryView::Inline),
{
}

/// Upper and lower case make no difference to the name of a choice.
pub proof fn law_choices_ignore_case(a: Vars, b: Vars, setting: Setting)
    requires
        text_of(a, setting) matches Some(v) && text_of(b, setting) matches Some(w)
            && is_ascii_chars(v) && is_ascii_chars(w) && ascii_lowercase(v) == ascii_lowercase(w),
    ensures
        setting == Setting::DmarcMode ==> dmarc_mode(a) == dmarc_mode(b),
        setting == Setting::DmarcTempErrorAction ==> temperror_action(a) == temperror_action(b),
        setting == Setting::AttachmentDelivery ==> attachment_delivery(a) == named_delivery(
            a,
            lowercased(text_of(b, setting)->0),
        ),
{
}

/// Each name of a choice, in letters of either case, is read as that choice and no other text is.
pub proof fn law_names_of_choices(vars: Vars, setting: Setting, value: Seq<char>)
    requires
        text_of(vars, setting) == Some(value),
    ensures
        setting == Setting::DmarcMode ==> {
            &&& lowercased(value) == "off"@ <==> dmarc_mode(vars) == Ok::<
                _,
                ConfigErrorView,
            >(DmarcMode::Off)
            &&& lowercased(value) == "monitor"@ <==> dmarc_mode(vars) == Ok::<
                _,
                ConfigErrorView,
            >(DmarcMode::Monitor)
            &&& lowercased(value) == "enforce"@ <==> dmarc_mode(vars) == Ok::<
                _,
                ConfigErrorView,
            >(DmarcMode::Enforce)
        },
        setting == Setting::DmarcTempErrorAction ==> {
            &&& lowercased(value) == "reject"@ <==> temperror_action(vars) == Ok::<
                _,
                ConfigErrorView,
            >(DmarcTempErrorAction::Reject)
            &&& lowercased(value) == "accept"@ <==> temperror_action(vars) == Ok::<
                _,
                ConfigErrorView,
            >(DmarcTempErrorAction::Accept)
        },
        setting == Setting::AttachmentDelivery ==> {
            &&& lowercased(value) == "inline"@ <==> attachment_delivery(vars) == Ok::<
                _,
                ConfigErrorView,
            >(DeliveryView::Inline)
            &&& lowercased(value) != "inline"@ && lowercased(value) != "s3"@
                ==> attachment_delivery(vars) is Err
        },
{
    lemma_names();
}

/// Whether a setting has no default.
pub open spec fn has_no_default(setting: Setting) -> bool {
    match setting {
        Setting::TargetEmails
        | Setting::TargetDomains
        | Setting::WebhookUrl
        | Setting::CedarPolicies => true,
        _ => false,
    }
}

/// With someone to accept mail for, the webhook's URL and the policy file, nothing else need be
/// set: every other setting has its default.
pub proof fn law_defaults(vars: Vars)
    requires
        list_of(vars, Setting::TargetEmails).len() > 0 || list_of(
            vars,
            Setting::TargetDomains,
        ).len() > 0,
        required(vars, Setting::WebhookUrl) is Ok,
        required(vars, Setting::CedarPolicies) is Ok,
        forall|setting: Setting|
            !has_no_default(setting) ==> #[trigger] text_of(vars, setting) is None,
    ensures
        first_error(vars) is None,
        settings(vars) == (ConfigView {
            target_emails: list_of(vars, Setting::TargetEmails),
            target_domains: list_of(vars, Setting::TargetDomains),
            webhook_url: required(vars, Setting::WebhookUrl)->Ok_0,
            smtp_bind_address: "0.0.0.0"@,
            smtp_port: 2525,
            health_check_bind_address: "0.0.0.0"@,
            health_check_port: 8080,
            header_prefixes: Seq::empty(),
            webhook_timeout_secs: 30,
            webhook_max_retries: 3,
            circuit_breaker_threshold: 5,
            circuit_breaker_reset_secs: 60,
            webhook_signing_secret: None,
            cedar_policies_path: required(vars, Setting::CedarPolicies)->Ok_0,
            cedar_entities_path: None,
            max_message_size_bytes: 26_214_400,
            max_attachment_size_bytes: 10_485_760,
            attachment_delivery: DeliveryView::Inline,
            dmarc_mode: DmarcMode::Off,
            dmarc_dns_timeout_secs: 5,
            dmarc_dns_servers: Seq::empty(),
            dmarc_temperror_action: DmarcTempErrorAction::Reject,
            max_concurrent_per_ip: 10,
            max_unknown_rcpts_per_session: 3,
        }),
{
}

/// Every entry of a list among the settings is clean: not empty, and without a comma or white
/// space around it.
pub proof fn law_listed_settings_clean(vars: Vars, setting: Setting, i: int)
    requires
        0 <= i < list_of(vars, setting).len(),
    ensures
        list_of(vars, setting)[i].len() > 0,
        !list_of(vars, setting)[i].contains(','),
        !is_white_space(list_of(vars, setting)[i].first()),
        !is_white_space(list_of(vars, setting)[i].last()),
{
    law_entries_clean(text_of(vars, setting)->0, i);
}

} // verus!
