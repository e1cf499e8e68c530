//! What each setting is read as, from which variable.

use crate::config::env::{entry_view, lookup, EnvVars, VarError, VarErrorView};
use crate::config::load::{
    attachment_delivery_named, dmarc_mode_named, temperror_action_named, Vars,
};
use crate::config::setting::{variable_name, Setting};
use crate::config::{
    AttachmentDelivery, Config, ConfigError, DmarcMode, DmarcTempErrorAction,
};
use crate::decimal::{decimal, law_decimal_read_back, parsed, IntErrorKind};
use crate::text::{entries, lowercased, optional_text, texts};
use vstd::prelude::*;

verus! {

/// The first variable of a name has its value; other variables make no difference.
pub proof fn law_lookup(vars: Vars, name: Seq<char>, k: int)
    ensures
        0 <= k < vars.len() && vars[k].0 == name && (forall|j: int|
            0 <= j < k ==> (#[trigger] vars[j]).0 != name) ==> lookup(vars, name) == (
        match vars[k].1 {
            Ok(value) => Ok(value),
            Err(raw) => Err(VarErrorView::NotUnicode(raw)),
        }),
        (forall|j: int| 0 <= j < vars.len() ==> (#[trigger] vars[j]).0 != name) ==> lookup(
            vars,
            name,
        ) == Err::<Seq<char>, _>(VarErrorView::NotPresent),
    decreases vars.len(),
{
    if vars.len() > 0 {
        let rest = vars.drop_first();
        law_lookup(rest, name, k - 1);
        if forall|j: int| 0 <= j < vars.len() ==> (#[trigger] vars[j]).0 != name {
            assert forall|j: int| 0 <= j < rest.len() implies (#[trigger] rest[j]).0 != name by {
                assert(rest[j] == vars[j + 1]);
            }
        }
        if 0 < k < vars.len() && vars[k].0 == name && forall|j: int|
            0 <= j < k ==> (#[trigger] vars[j]).0 != name {
            assert(vars[0].0 != name);
            assert(rest[k - 1] == vars[k]);
            assert forall|j: int| 0 <= j < k - 1 implies (#[trigger] rest[j]).0 != name by {
                assert(rest[j] == vars[j + 1]);
            }
        }
    }
}

/// A variable that is set, and of which no earlier one has the name, gives its value as it is.
pub proof fn law_var(env: EnvVars, setting: Setting, k: int, r: Result<String, VarError>)
    requires
        call_ensures(EnvVars::var, (&env, setting), r),
        0 <= k < env.vars.len(),
        env.vars[k].0@ == variable_name(setting),
        forall|j: int| 0 <= j < k ==> (#[trigger] env.vars[j]).0@ != variable_name(setting),
    ensures
        match env.vars[k].1 {
            Ok(value) => r matches Ok(text) && text@ == value@,
            Err(raw) => r matches Err(VarError::NotUnicode(shown)) && shown@ == raw@,
        },
{
    assert forall|j: int| 0 <= j < k implies (#[trigger] env@[j]).0 != variable_name(setting) by {
        assert(env@[j] == entry_view(env.vars[j]));
    }
    assert(env@[k] == entry_view(env.vars[k]));
    law_lookup(env@, variable_name(setting), k);
}

/// A variable that is not set has no value.
pub proof fn law_var_not_set(env: EnvVars, setting: Setting, r: Result<String, VarError>)
    requires
        call_ensures(EnvVars::var, (&env, setting), r),
        forall|j: int|
            0 <= j < env.vars.len() ==> (#[trigger] env.vars[j]).0@ != variable_name(setting),
    ensures
        r matches Err(VarError::NotPresent),
{
    assert forall|j: int| 0 <= j < env@.len() implies (#[trigger] env@[j]).0 != variable_name(
        setting,
    ) by {
        assert(env@[j] == entry_view(env.vars[j]));
    }
    law_lookup(env@, variable_name(setting), 0);
}

/// Whether a number is what a variable says, or the default where it says nothing.
pub open spec fn is_number_of(vars: Vars, name: Seq<char>, max: nat, default: nat, n: nat) -> bool {
    match lookup(vars, name) {
        Ok(text) => parsed(text, max) == Ok::<nat, IntErrorKind>(n),
        Err(_) => n == default,
    }
}

/// Whether a text is what a variable says, or the default where it says nothing.
pub open spec fn is_text_of(
    vars: Vars,
    name: Seq<char>,
    default: Seq<char>,
    text: Seq<char>,
) -> bool {
    match lookup(vars, name) {
        Ok(value) => text == value,
        Err(_) => text == default,
    }
}

/// Whether a list is what a variable says, or empty where it says nothing.
pub open spec fn is_list_of(vars: Vars, name: Seq<char>, list: Seq<Seq<char>>) -> bool {
    match lookup(vars, name) {
        Ok(value) => list == entries(value),
        Err(_) => list.len() == 0,
    }
}

/// Every number is read from its own variable, in the range of its type; and every variable that is
/// not set has its default, whatever the others say.
pub proof fn law_numbers(env: EnvVars, config: Config)
    requires
        call_ensures(Config::from_env, (&env,), Ok::<_, ConfigError>(config)),
    ensures
        is_number_of(
            env@,
            "MAIL_LASER_PORT"@,
            0xffff,
            2525,
            config.smtp_port as nat,
        ),
        is_number_of(
            env@,
            "MAIL_LASER_HEALTH_PORT"@,
            0xffff,
            8080,
            config.health_check_port as nat,
        ),
        is_number_of(
            env@,
            "MAIL_LASER_WEBHOOK_TIMEOUT"@,
            0xffff_ffff_ffff_ffff,
            30,
            config.webhook_timeout_secs as nat,
        ),
        is_number_of(
            env@,
            "MAIL_LASER_WEBHOOK_MAX_RETRIES"@,
            0xffff_ffff,
            3,
            config.webhook_max_retries as nat,
        ),
        is_number_of(
            env@,
            "MAIL_LASER_CIRCUIT_BREAKER_THRESHOLD"@,
            0xffff_ffff,
            5,
            config.circuit_breaker_threshold as nat,
        ),
        is_number_of(
            env@,
            "MAIL_LASER_CIRCUIT_BREAKER_RESET"@,
            0xffff_ffff_ffff_ffff,
            60,
            config.circuit_breaker_reset_secs as nat,
        ),
        is_number_of(
            env@,
            "MAIL_LASER_MAX_MESSAGE_SIZE"@,
            0xffff_ffff_ffff_ffff,
            26_214_400,
            config.max_message_size_bytes as nat,
        ),
        is_number_of(
            env@,
            "MAIL_LASER_MAX_ATTACHMENT_SIZE"@,
            0xffff_ffff_ffff_ffff,
            10_485_760,
            config.max_attachment_size_bytes as nat,
        ),
        is_number_of(
            env@,
            "MAIL_LASER_DMARC_DNS_TIMEOUT"@,
            0xffff_ffff_ffff_ffff,
            5,
            config.dmarc_dns_timeout_secs as nat,
        ),
        is_number_of(
            env@,
            "MAIL_LASER_MAX_CONCURRENT_PER_IP"@,
            0xffff_ffff,
            10,
            config.max_concurrent_per_ip as nat,
        ),
        is_number_of(
            env@,
            "MAIL_LASER_MAX_UNKNOWN_RCPTS_PER_SESSION"@,
            0xffff_ffff,
            3,
            config.max_unknown_rcpts_per_session as nat,
        ),
        config.smtp_port > 0,
        config.max_message_size_bytes > 0,
        config.max_attachment_size_bytes > 0,
        config.dmarc_dns_timeout_secs > 0,
{
}

/// A variable that holds a number in decimal is read as that number, if it fits.
pub proof fn law_number_read_back(
    vars: Vars,
    name: Seq<char>,
    max: nat,
    default: nat,
    n: nat,
    written: nat,
)
    requires
        is_number_of(vars, name, max, default, n),
        lookup(vars, name) == Ok::<_, VarErrorView>(decimal(written)),
        written <= max,
    ensures
        n == written,
{
    law_decimal_read_back(written, max);
}

/// Every text is read from its own variable, as it is.
pub proof fn law_texts(env: EnvVars, config: Config)
    requires
        call_ensures(Config::from_env, (&env,), Ok::<_, ConfigError>(config)),
    ensures
        lookup(env@, "MAIL_LASER_WEBHOOK_URL"@) == Ok::<_, VarErrorView>(config.webhook_url@),
        lookup(env@, "MAIL_LASER_CEDAR_POLICIES"@) == Ok::<_, VarErrorView>(
            config.cedar_policies_path@,
        ),
        match lookup(env@, "MAIL_LASER_CEDAR_ENTITIES"@) {
            Ok(value) => config.cedar_entities_path matches Some(path) && path@ == value,
            Err(_) => config.cedar_entities_path is None,
        },
        is_text_of(env@, "MAIL_LASER_BIND_ADDRESS"@, "0.0.0.0"@, config.smtp_bind_address@),
        is_text_of(
            env@,
            "MAIL_LASER_HEALTH_BIND_ADDRESS"@,
            "0.0.0.0"@,
            config.health_check_bind_address@,
        ),
        match config.webhook_signing_secret {
            Some(secret) => secret@.len() > 0 && lookup(
                env@,
                "MAIL_LASER_WEBHOOK_SIGNING_SECRET"@,
            ) == Ok::<_, VarErrorView>(secret@),
            None => lookup(env@, "MAIL_LASER_WEBHOOK_SIGNING_SECRET"@) matches Ok(value)
                ==> value.len() == 0,
        },
{
    assert(config@.cedar_entities_path == optional_text(config.cedar_entities_path));
    assert(config@.webhook_signing_secret == optional_text(config.webhook_signing_secret));
}

/// Every list is read from its own variable, and mail is accepted for someone.
pub proof fn law_lists(env: EnvVars, config: Config)
    requires
        call_ensures(Config::from_env, (&env,), Ok::<_, ConfigError>(config)),
    ensures
        is_list_of(env@, "MAIL_LASER_TARGET_EMAILS"@, texts(config.target_emails@)),
        is_list_of(env@, "MAIL_LASER_TARGET_DOMAINS"@, texts(config.target_domains@)),
        is_list_of(env@, "MAIL_LASER_HEADER_PREFIX"@, texts(config.header_prefixes@)),
        is_list_of(env@, "MAIL_LASER_DMARC_DNS_SERVERS"@, texts(config.dmarc_dns_servers@)),
        config.target_emails.len() > 0 || config.target_domains.len() > 0,
{
    assert(texts(config.target_emails@).len() == config.target_emails.len());
    assert(texts(config.target_domains@).len() == config.target_domains.len());
}

/// The names of the choices are all different.
pub proof fn lemma_names()
    ensures
        "off"@ != "monitor"@,
        "off"@ != "enforce"@,
        "monitor"@ != "enforce"@,
        "reject"@ != "accept"@,
        "inline"@ != "s3"@,
{
    reveal_strlit("off");
    reveal_strlit("monitor");
    reveal_strlit("enforce");
    reveal_strlit("reject");
    reveal_strlit("accept");
    reveal_strlit("inline");
    reveal_strlit("s3");
    assert("off"@.len() == 3 && "monitor"@.len() == 7 && "enforce"@.len() == 7);
    assert("monitor"@[0] == 'm' && "enforce"@[0] == 'e');
    assert("reject"@[0] == 'r' && "accept"@[0] == 'a');
    assert("inline"@.len() == 6 && "s3"@.len() == 2);
}

/// Every choice is what its variable names, in letters of either case, each name for its own
/// choice; and a variable that is not set leaves DMARC off, rejects on temporary errors, and
/// delivers attachments inline.
pub proof fn law_choices(env: EnvVars, config: Config)
    requires
        call_ensures(Config::from_env, (&env,), Ok::<_, ConfigError>(config)),
    ensures
        match lookup(env@, "MAIL_LASER_DMARC_MODE"@) {
            Ok(value) => {
                &&& config.dmarc_mode == DmarcMode::Off <==> lowercased(value) == "off"@
                &&& config.dmarc_mode == DmarcMode::Monitor <==> lowercased(value) == "monitor"@
                &&& config.dmarc_mode == DmarcMode::Enforce <==> lowercased(value) == "enforce"@
            },
            Err(_) => config.dmarc_mode == DmarcMode::Off,
        },
        match lookup(env@, "MAIL_LASER_DMARC_TEMPERROR_ACTION"@) {
            Ok(value) => {
                &&& config.dmarc_temperror_action == DmarcTempErrorAction::Reject <==> lowercased(
                    value,
                ) == "reject"@
                &&& config.dmarc_temperror_action == DmarcTempErrorAction::Accept <==> lowercased(
                    value,
                ) == "accept"@
            },
            Err(_) => config.dmarc_temperror_action == DmarcTempErrorAction::Reject,
        },
        match lookup(env@, "MAIL_LASER_ATTACHMENT_DELIVERY"@) {
            Ok(value) => {
                &&& config.attachment_delivery is Inline <==> lowercased(value) == "inline"@
                &&& config.attachment_delivery is S3 <==> lowercased(value) == "s3"@
            },
            Err(_) => config.attachment_delivery is Inline,
        },
{
    lemma_names();
    assert(config@.attachment_delivery == config.attachment_delivery@);
}

/// The settings of S3 are read from their own variables: bucket and region must be set, an endpoint
/// may be, a prefix is empty unless it is set, and a lifetime is a number above zero.
pub proof fn law_s3(env: EnvVars, config: Config)
    requires
        call_ensures(Config::from_env, (&env,), Ok::<_, ConfigError>(config)),
        config.attachment_delivery is S3,
    ensures
        config.attachment_delivery matches AttachmentDelivery::S3(s3) ==> {
            &&& lookup(env@, "MAIL_LASER_S3_BUCKET"@) == Ok::<_, VarErrorView>(s3.bucket@)
            &&& lookup(env@, "MAIL_LASER_S3_REGION"@) == Ok::<_, VarErrorView>(s3.region@)
            &&& match lookup(env@, "MAIL_LASER_S3_ENDPOINT"@) {
                Ok(value) => s3.endpoint matches Some(endpoint) && endpoint@ == value,
                Err(_) => s3.endpoint is None,
            }
            &&& is_text_of(env@, "MAIL_LASER_S3_KEY_PREFIX"@, Seq::empty(), s3.key_prefix@)
            &&& match lookup(env@, "MAIL_LASER_S3_PRESIGN_TTL"@) {
                Ok(value) => s3.presign_ttl_secs matches Some(ttl) && ttl > 0 && parsed(
                    value,
                    0xffff_ffff_ffff_ffff,
                ) == Ok::<nat, IntErrorKind>(ttl as nat),
                Err(_) => s3.presign_ttl_secs is None,
            }
        },
{
    let s3 = config.attachment_delivery->S3_0;
    assert(config@.attachment_delivery == config.attachment_delivery@);
    assert(s3@.endpoint == optional_text(s3.endpoint));
}

/// Each name, in lower case, names its own choice, and no other text names one.
pub proof fn law_named_choices(
    env: EnvVars,
    name: String,
    mode: Result<DmarcMode, ConfigError>,
    action: Result<DmarcTempErrorAction, ConfigError>,
    delivery: Result<AttachmentDelivery, ConfigError>,
)
    requires
        call_ensures(dmarc_mode_named, (name,), mode),
        call_ensures(temperror_action_named, (name,), action),
        call_ensures(attachment_delivery_named, (&env, name), delivery),
    ensures
        mode matches Ok(DmarcMode::Off) <==> name@ == "off"@,
        mode matches Ok(DmarcMode::Monitor) <==> name@ == "monitor"@,
        mode matches Ok(DmarcMode::Enforce) <==> name@ == "enforce"@,
        mode matches Err(e) ==> e matches ConfigError::UnknownChoice { setting, value } && setting
            == Setting::DmarcMode && value@ == name@,
        action matches Ok(DmarcTempErrorAction::Reject) <==> name@ == "reject"@,
        action matches Ok(DmarcTempErrorAction::Accept) <==> name@ == "accept"@,
        action matches Err(e) ==> e matches ConfigError::UnknownChoice { setting, value } && setting
            == Setting::DmarcTempErrorAction && value@ == name@,
        delivery matches Ok(AttachmentDelivery::Inline) <==> name@ == "inline"@,
        delivery matches Ok(AttachmentDelivery::S3(_)) ==> name@ == "s3"@,
        name@ != "inline"@ && name@ != "s3"@ ==> (delivery matches Err(e) && e matches
            ConfigError::UnknownChoice { setting, value } && setting == Setting::AttachmentDelivery
            && value@ == name@),
{
    lemma_names();
}

} // verus!
