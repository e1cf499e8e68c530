//! What is wrong with the settings, and what is reported first.

use crate::config::env::{lookup, EnvVars, VarErrorView};
use crate::config::laws::values::lemma_names;
use crate::config::load::Vars;
use crate::config::setting::{largest_number, variable_name, Setting};
use crate::config::{Config, ConfigError, VarError};
use crate::decimal::{parsed, IntErrorKind};
use crate::text::{entries, lowercased};
use vstd::prelude::*;

verus! {

/// Whether a variable has a text.
pub open spec fn is_set(vars: Vars, name: Seq<char>) -> bool {
    lookup(vars, name) is Ok
}

/// Whether a variable is not set, or lists nothing.
pub open spec fn lists_nothing(vars: Vars, name: Seq<char>) -> bool {
    lookup(vars, name) matches Ok(text) ==> entries(text).len() == 0
}

/// Whether a variable is not set, or holds a number from `min` to `max`.
pub open spec fn is_number_if_set(vars: Vars, name: Seq<char>, min: nat, max: nat) -> bool {
    lookup(vars, name) matches Ok(text) ==> (parsed(text, max) matches Ok(n) && n >= min)
}

/// Whether a variable is not set, or names one of two things in letters of either case.
pub open spec fn names_if_set(vars: Vars, name: Seq<char>, a: Seq<char>, b: Seq<char>) -> bool {
    lookup(vars, name) matches Ok(text) ==> lowercased(text) == a || lowercased(text) == b
}

/// The things that are asked of the settings, in the order in which they are.
pub open spec fn is_right(vars: Vars, place: int) -> bool {
    if place == 0 {
        !lists_nothing(vars, "MAIL_LASER_TARGET_EMAILS"@) || !lists_nothing(
            vars,
            "MAIL_LASER_TARGET_DOMAINS"@,
        )
    } else if place == 1 {
        is_set(vars, "MAIL_LASER_WEBHOOK_URL"@)
    } else if place == 2 {
        is_set(vars, "MAIL_LASER_CEDAR_POLICIES"@)
    } else if place == 3 {
        is_number_if_set(vars, "MAIL_LASER_PORT"@, 1, 65535)
    } else if place == 4 {
        is_number_if_set(vars, "MAIL_LASER_HEALTH_PORT"@, 0, 65535)
    } else if place == 5 {
        is_number_if_set(vars, "MAIL_LASER_WEBHOOK_TIMEOUT"@, 0, 0xffff_ffff_ffff_ffff)
    } else if place == 6 {
        is_number_if_set(vars, "MAIL_LASER_WEBHOOK_MAX_RETRIES"@, 0, 0xffff_ffff)
    } else if place == 7 {
        is_number_if_set(vars, "MAIL_LASER_CIRCUIT_BREAKER_THRESHOLD"@, 0, 0xffff_ffff)
    } else if place == 8 {
        is_number_if_set(vars, "MAIL_LASER_CIRCUIT_BREAKER_RESET"@, 0, 0xffff_ffff_ffff_ffff)
    } else if place == 9 {
        is_number_if_set(vars, "MAIL_LASER_MAX_MESSAGE_SIZE"@, 1, 0xffff_ffff_ffff_ffff)
    } else if place == 10 {
        is_number_if_set(vars, "MAIL_LASER_MAX_ATTACHMENT_SIZE"@, 1, 0xffff_ffff_ffff_ffff)
    } else if place == 11 {
        names_if_set(vars, "MAIL_LASER_ATTACHMENT_DELIVERY"@, "inline"@, "s3"@)
    } else if place == 12 {
        goes_to_s3(vars) ==> is_set(vars, "MAIL_LASER_S3_BUCKET"@)
    } else if place == 13 {
        goes_to_s3(vars) ==> is_set(vars, "MAIL_LASER_S3_REGION"@)
    } else if place == 14 {
        goes_to_s3(vars) ==> is_number_if_set(
            vars,
            "MAIL_LASER_S3_PRESIGN_TTL"@,
            1,
            0xffff_ffff_ffff_ffff,
        )
    } else if place == 15 {
        lookup(vars, "MAIL_LASER_DMARC_MODE"@) matches Ok(text) ==> lowercased(text) == "off"@
            || lowercased(text) == "monitor"@ || lowercased(text) == "enforce"@
    } else if place == 16 {
        is_number_if_set(vars, "MAIL_LASER_DMARC_DNS_TIMEOUT"@, 1, 0xffff_ffff_ffff_ffff)
    } else if place == 17 {
        names_if_set(vars, "MAIL_LASER_DMARC_TEMPERROR_ACTION"@, "reject"@, "accept"@)
    } else if place == 18 {
        is_number_if_set(vars, "MAIL_LASER_MAX_CONCURRENT_PER_IP"@, 0, 0xffff_ffff)
    } else if place == 19 {
        is_number_if_set(vars, "MAIL_LASER_MAX_UNKNOWN_RCPTS_PER_SESSION"@, 0, 0xffff_ffff)
    } else {
        true
    }
}

/// Whether attachments go to S3.
pub open spec fn goes_to_s3(vars: Vars) -> bool {
    lookup(vars, "MAIL_LASER_ATTACHMENT_DELIVERY"@) matches Ok(text) && lowercased(text) == "s3"@
}

/// The place in that order of what an error is about.
pub open spec fn place_of(e: ConfigError) -> int {
    match e {
        ConfigError::NoTargets => 0,
        ConfigError::Missing { setting, .. }
        | ConfigError::InvalidPort { setting, .. }
        | ConfigError::InvalidNumber { setting, .. }
        | ConfigError::Zero { setting }
        | ConfigError::UnknownChoice { setting, .. } => match setting {
            Setting::WebhookUrl => 1,
            Setting::CedarPolicies => 2,
            Setting::Port => 3,
            Setting::HealthPort => 4,
            Setting::WebhookTimeout => 5,
            Setting::WebhookMaxRetries => 6,
            Setting::CircuitBreakerThreshold => 7,
            Setting::CircuitBreakerReset => 8,
            Setting::MaxMessageSize => 9,
            Setting::MaxAttachmentSize => 10,
            Setting::AttachmentDelivery => 11,
            Setting::S3Bucket => 12,
            Setting::S3Region => 13,
            Setting::S3PresignTtl => 14,
            Setting::DmarcMode => 15,
            Setting::DmarcDnsTimeout => 16,
            Setting::DmarcTempErrorAction => 17,
            Setting::MaxConcurrentPerIp => 18,
            Setting::MaxUnknownRcptsPerSession => 19,
            _ => 20,
        },
    }
}

/// Settings are read exactly if everything is right; and if not, the error is about the first thing
/// that is not.
pub proof fn law_first_wrong_thing(env: EnvVars, r: Result<Config, ConfigError>)
    requires
        call_ensures(Config::from_env, (&env,), r),
    ensures
        r is Ok <==> forall|place: int| 0 <= place < 20 ==> #[trigger] is_right(env@, place),
        r matches Err(e) ==> 0 <= place_of(e) < 20 && !is_right(env@, place_of(e)) && forall|
            place: int,
        |
            0 <= place < place_of(e) ==> #[trigger] is_right(env@, place),
{
    lemma_names();
    if r is Ok {
        assert forall|place: int| 0 <= place < 20 implies #[trigger] is_right(env@, place) by {}
    } else {
        assert(!is_right(env@, place_of(r->Err_0)));
    }
}

/// The words of an error: why a variable has no text, what it holds, and what is wrong with it.
pub proof fn law_error_details(env: EnvVars, e: ConfigError)
    requires
        call_ensures(Config::from_env, (&env,), Err::<Config, _>(e)),
    ensures
        match e {
            ConfigError::NoTargets => true,
            ConfigError::Missing { setting, cause } => match cause {
                VarError::NotPresent => lookup(env@, variable_name(setting)) == Err::<
                    Seq<char>,
                    _,
                >(VarErrorView::NotPresent),
                VarError::NotUnicode(raw) => lookup(env@, variable_name(setting)) == Err::<
                    Seq<char>,
                    _,
                >(VarErrorView::NotUnicode(raw@)),
            },
            ConfigError::InvalidPort { setting, value, cause } => {
                &&& setting == Setting::Port || setting == Setting::HealthPort
                &&& lookup(env@, variable_name(setting)) == Ok::<_, VarErrorView>(value@)
                &&& parsed(value@, 65535) == Err::<nat, _>(cause)
            },
            ConfigError::InvalidNumber { setting, cause } => {
                &&& setting != Setting::Port && setting != Setting::HealthPort
                &&& lookup(env@, variable_name(setting)) matches Ok(text) && parsed(
                    text,
                    match setting {
                        Setting::WebhookMaxRetries
                        | Setting::CircuitBreakerThreshold
                        | Setting::MaxConcurrentPerIp
                        | Setting::MaxUnknownRcptsPerSession => 0xffff_ffff,
                        _ => 0xffff_ffff_ffff_ffff,
                    },
                ) == Err::<nat, _>(cause)
            },
            ConfigError::Zero { setting } => lookup(env@, variable_name(setting)) matches Ok(text)
                && parsed(text, 0xffff_ffff_ffff_ffff) == Ok::<nat, IntErrorKind>(0),
            ConfigError::UnknownChoice { setting, value } => lookup(
                env@,
                variable_name(setting),
            ) matches Ok(text) && value@ == lowercased(text),
        },
{
    let vars = env@;
    match e {
        ConfigError::Zero { setting } => {
            let text = lookup(vars, variable_name(setting))->Ok_0;
            lemma_zero(text, 65535, 0xffff_ffff_ffff_ffff);
        },
        _ => {},
    }
}

proof fn lemma_zero(text: Seq<char>, small: nat, large: nat)
    requires
        small <= large,
    ensures
        parsed(text, small) == Ok::<nat, IntErrorKind>(0) ==> parsed(text, large) == Ok::<
            nat,
            IntErrorKind,
        >(0),
{
}

/// An error names the variable that it is about, first of all, and shows the value that it is about
/// as it is.
pub proof fn law_message(e: ConfigError, message: String)
    requires
        call_ensures(ConfigError::message, (&e,), message),
    ensures
        match e {
            ConfigError::NoTargets => message@
                == "At least one of MAIL_LASER_TARGET_EMAILS or MAIL_LASER_TARGET_DOMAINS must contain a valid entry"@,
            ConfigError::Missing { setting, .. } => split_at(message@, variable_name(setting))
                == Some(
                if setting == Setting::S3Bucket || setting == Setting::S3Region {
                    " must be set when MAIL_LASER_ATTACHMENT_DELIVERY=s3"@
                } else {
                    " environment variable must be set"@
                },
            ),
            ConfigError::InvalidPort { setting, value, .. } => split_at(
                message@,
                variable_name(setting) + " ('"@ + value@,
            ) == Some("') must be a valid u16 port number"@),
            ConfigError::InvalidNumber { setting, .. } => variable_name(setting).is_prefix_of(
                message@,
            ),
            ConfigError::Zero { setting } => split_at(message@, variable_name(setting)) == Some(
                " must be greater than 0"@,
            ),
            ConfigError::UnknownChoice { setting, value } => {
                &&& variable_name(setting).is_prefix_of(message@)
                &&& (" (got '"@ + value@ + "')"@).is_suffix_of(message@)
            },
        },
{
    match e {
        ConfigError::NoTargets => {},
        ConfigError::Missing { setting, .. } => {
            let name = variable_name(setting);
            assert(message@.take(name.len() as int) =~= name);
            assert(message@ =~= name + message@.skip(name.len() as int));
            assert(message@.skip(name.len() as int) =~= (if setting == Setting::S3Bucket || setting
                == Setting::S3Region {
                " must be set when MAIL_LASER_ATTACHMENT_DELIVERY=s3"@
            } else {
                " environment variable must be set"@
            }));
        },
        ConfigError::InvalidPort { setting, value, .. } => {
            let front = variable_name(setting) + " ('"@ + value@;
            assert(message@.take(front.len() as int) =~= front);
            assert(message@.skip(front.len() as int) =~= "') must be a valid u16 port number"@);
        },
        ConfigError::InvalidNumber { setting, .. } => {
            let name = variable_name(setting);
            assert(message@.take(name.len() as int) =~= name);
        },
        ConfigError::Zero { setting } => {
            let name = variable_name(setting);
            assert(message@.take(name.len() as int) =~= name);
            assert(message@.skip(name.len() as int) =~= " must be greater than 0"@);
        },
        ConfigError::UnknownChoice { setting, value } => {
            let name = variable_name(setting);
            let end = " (got '"@ + value@ + "')"@;
            assert(message@.take(name.len() as int) =~= name);
            assert(message@.skip(message@.len() - end.len()) =~= end);
        },
    }
}

/// What follows `front` in a text that begins with it.
pub open spec fn split_at(s: Seq<char>, front: Seq<char>) -> Option<Seq<char>> {
    if front.len() <= s.len() && s.take(front.len() as int) == front {
        Some(s.skip(front.len() as int))
    } else {
        None
    }
}

/// The messages on unknown choices of one variable, and on bad numbers of variables of one type,
/// differ in nothing but the value or the name.
pub proof fn law_messages_alike(
    a: ConfigError,
    b: ConfigError,
    message_a: String,
    message_b: String,
)
    requires
        call_ensures(ConfigError::message, (&a,), message_a),
        call_ensures(ConfigError::message, (&b,), message_b),
    ensures
        (a matches ConfigError::UnknownChoice { setting: s, value: v } && b matches
            ConfigError::UnknownChoice { setting: t, value: w } && s == t) ==> message_a@.take(
            message_a@.len() - a->UnknownChoice_value@.len() - 2,
        ) == message_b@.take(message_b@.len() - b->UnknownChoice_value@.len() - 2),
        (a matches ConfigError::InvalidNumber { setting: s, cause: v } && b matches
            ConfigError::InvalidNumber { setting: t, cause: w } && v == w && largest_number(s)
            == largest_number(t)) ==> message_a@.skip(
            variable_name(a->InvalidNumber_setting).len() as int,
        ) == message_b@.skip(variable_name(b->InvalidNumber_setting).len() as int),
{
    if a is UnknownChoice && b is UnknownChoice && a->UnknownChoice_setting
        == b->UnknownChoice_setting {
        reveal_strlit("')");
        assert(message_a@.take(message_a@.len() - a->UnknownChoice_value@.len() - 2)
            =~= message_b@.take(message_b@.len() - b->UnknownChoice_value@.len() - 2));
    }
    if a is InvalidNumber && b is InvalidNumber && a->InvalidNumber_cause == b->InvalidNumber_cause
        && largest_number(a->InvalidNumber_setting) == largest_number(b->InvalidNumber_setting) {
        assert(message_a@.skip(variable_name(a->InvalidNumber_setting).len() as int)
            =~= message_b@.skip(variable_name(b->InvalidNumber_setting).len() as int));
    }
}

/// What lies behind an error: why a variable has no text, or what is wrong with a port.
pub proof fn law_cause(e: ConfigError, cause: Option<String>)
    requires
        call_ensures(ConfigError::cause, (&e,), cause),
    ensures
        cause is Some <==> e is Missing || e is InvalidPort,
        e matches ConfigError::Missing { cause: why, .. } ==> match why {
            VarError::NotPresent => cause->0@ == "environment variable not found"@,
            VarError::NotUnicode(raw) => split_at(
                cause->0@,
                "environment variable was not valid unicode: "@,
            ) == Some(raw@),
        },
        e matches ConfigError::InvalidPort { cause: why, .. } ==> cause->0@ == (match why {
            IntErrorKind::Empty => "cannot parse integer from empty string"@,
            IntErrorKind::InvalidDigit => "invalid digit found in string"@,
            IntErrorKind::PosOverflow => "number too large to fit in target type"@,
        }),
{
    if let ConfigError::Missing { cause: VarError::NotUnicode(raw), .. } = e {
        let front = "environment variable was not valid unicode: "@;
        assert(cause->0@.take(front.len() as int) =~= front);
        assert(cause->0@.skip(front.len() as int) =~= raw@);
    }
}

/// What is wrong with a number is said in the same words, whether the error shows them itself or as
/// what lies behind it.
pub proof fn law_number_errors_alike(
    number: ConfigError,
    port: ConfigError,
    message: String,
    cause: Option<String>,
    setting: Setting,
    other: Setting,
    value: String,
    kind: IntErrorKind,
)
    requires
        number == (ConfigError::InvalidNumber { setting, cause: kind }),
        port == (ConfigError::InvalidPort { setting: other, value, cause: kind }),
        call_ensures(ConfigError::message, (&number,), message),
        call_ensures(ConfigError::cause, (&port,), cause),
    ensures
        cause matches Some(text) && text@.is_suffix_of(message@),
{
    let text = cause->0@;
    assert(text =~= message@.skip(message@.len() - text.len()));
}

} // verus!
