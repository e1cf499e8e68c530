//! Why the settings cannot be used.

use crate::config::env::{VarError, VarErrorView};
use crate::config::setting::{number_type, variable_name, Setting};
use crate::decimal::IntErrorKind;
use vstd::prelude::*;

verus! {

/// Why the settings cannot be used.
#[derive(Debug, Clone, PartialEq, Eq)]
pub enum ConfigError {
    /// There is neither a target address nor a target domain.
    NoTargets,
    /// A required variable has no text.
    Missing { setting: Setting, cause: VarError },
    /// A port is no number of its type.
    InvalidPort { setting: Setting, value: String, cause: IntErrorKind },
    /// A number is none of its type.
    InvalidNumber { setting: Setting, cause: IntErrorKind },
    /// A number is zero that must not be.
    Zero { setting: Setting },
    /// A choice is none of those on offer; the value is in lower case.
    UnknownChoice { setting: Setting, value: String },
}

/// The contents of [`ConfigError`].
#[verifier::ext_equal]
pub enum ConfigErrorView {
    NoTargets,
    Missing { setting: Setting, cause: VarErrorView },
    InvalidPort { setting: Setting, value: Seq<char>, cause: IntErrorKind },
    InvalidNumber { setting: Setting, cause: IntErrorKind },
    Zero { setting: Setting },
    UnknownChoice { setting: Setting, value: Seq<char> },
}

impl View for ConfigError {
    type V = ConfigErrorView;

    open spec fn view(&self) -> ConfigErrorView {
        match self {
            ConfigError::NoTargets => ConfigErrorView::NoTargets,
            ConfigError::Missing { setting, cause } => ConfigErrorView::Missing {
                setting: *setting,
                cause: cause@,
            },
            ConfigError::InvalidPort { setting, value, cause } => ConfigErrorView::InvalidPort {
                setting: *setting,
                value: value@,
                cause: *cause,
            },
            ConfigError::InvalidNumber { setting, cause } => ConfigErrorView::InvalidNumber {
                setting: *setting,
                cause: *cause,
            },
            ConfigError::Zero { setting } => ConfigErrorView::Zero { setting: *setting },
            ConfigError::UnknownChoice { setting, value } => ConfigErrorView::UnknownChoice {
                setting: *setting,
                value: value@,
            },
        }
    }
}

/// What is wrong with a number, in words.
pub open spec fn number_error_text(kind: IntErrorKind) -> Seq<char> {
    match kind {
        IntErrorKind::Empty => "cannot parse integer from empty string"@,
        IntErrorKind::InvalidDigit => "invalid digit found in string"@,
        IntErrorKind::PosOverflow => "number too large to fit in target type"@,
    }
}

/// Why a variable has no text, in words.
pub open spec fn variable_error_text(cause: VarErrorView) -> Seq<char> {
    match cause {
        VarErrorView::NotPresent => "environment variable not found"@,
        VarErrorView::NotUnicode(raw) => "environment variable was not valid unicode: "@ + raw,
    }
}

/// What a required variable is asked for.
pub open spec fn requirement_text(setting: Setting) -> Seq<char> {
    match setting {
        Setting::S3Bucket | Setting::S3Region => " must be set when MAIL_LASER_ATTACHMENT_DELIVERY=s3"@,
        _ => " environment variable must be set"@,
    }
}

/// The choices that a variable offers.
pub open spec fn choices_text(setting: Setting) -> Seq<char> {
    match setting {
        Setting::DmarcMode => "'off', 'monitor', or 'enforce'"@,
        Setting::DmarcTempErrorAction => "'reject' or 'accept'"@,
        _ => "'inline' or 's3'"@,
    }
}

/// An error in words.
pub open spec fn error_text(e: ConfigErrorView) -> Seq<char> {
    match e {
        ConfigErrorView::NoTargets =>
            "At least one of MAIL_LASER_TARGET_EMAILS or MAIL_LASER_TARGET_DOMAINS must contain a valid entry"@,
        ConfigErrorView::Missing { setting, cause } => variable_name(setting) + requirement_text(
            setting,
        ),
        ConfigErrorView::InvalidPort { setting, value, cause } => variable_name(setting) + " ('"@
            + value + "') must be a valid u16 port number"@,
        ConfigErrorView::InvalidNumber { setting, cause } => variable_name(setting)
            + " must be a valid "@ + number_type(setting) + ": "@ + number_error_text(cause),
        ConfigErrorView::Zero { setting } => variable_name(setting) + " must be greater than 0"@,
        ConfigErrorView::UnknownChoice { setting, value } => variable_name(setting) + " must be "@
            + choices_text(setting) + " (got '"@ + value + "')"@,
    }
}

/// What lies behind an error, in words, where the error's own words leave it out.
pub open spec fn cause_text(e: ConfigErrorView) -> Option<Seq<char>> {
    match e {
        ConfigErrorView::Missing { setting, cause } => Some(variable_error_text(cause)),
        ConfigErrorView::InvalidPort { setting, value, cause } => Some(number_error_text(cause)),
        _ => None,
    }
}

fn number_error_message(kind: IntErrorKind) -> (r: &'static str)
    ensures
        r@ == number_error_text(kind),
{
    match kind {
        IntErrorKind::Empty => "cannot parse integer from empty string",
        IntErrorKind::InvalidDigit => "invalid digit found in string",
        IntErrorKind::PosOverflow => "number too large to fit in target type",
    }
}

impl ConfigError {
    /// The error in words.
    pub fn message(&self) -> (r: String)
        ensures
            r@ == error_text(self@),
    {
        match self {
            ConfigError::NoTargets =>
                "At least one of MAIL_LASER_TARGET_EMAILS or MAIL_LASER_TARGET_DOMAINS must contain a valid entry".to_owned(),
            ConfigError::Missing { setting, .. } => {
                let r = setting.variable().to_owned();
                match setting {
                    Setting::S3Bucket | Setting::S3Region => r.concat(
                        " must be set when MAIL_LASER_ATTACHMENT_DELIVERY=s3",
                    ),
                    _ => r.concat(" environment variable must be set"),
                }
            },
            ConfigError::InvalidPort { setting, value, .. } => setting.variable().to_owned().concat(
                " ('",
            ).concat(value).concat("') must be a valid u16 port number"),
            ConfigError::InvalidNumber { setting, cause } => setting.variable().to_owned().concat(
                " must be a valid ",
            ).concat(setting.integer_type()).concat(": ").concat(number_error_message(*cause)),
            ConfigError::Zero { setting } => setting.variable().to_owned().concat(
                " must be greater than 0",
            ),
            ConfigError::UnknownChoice { setting, value } => {
                let choices = match setting {
                    Setting::DmarcMode => "'off', 'monitor', or 'enforce'",
                    Setting::DmarcTempErrorAction => "'reject' or 'accept'",
                    _ => "'inline' or 's3'",
                };
                setting.variable().to_owned().concat(" must be ").concat(choices).concat(
                    " (got '",
                ).concat(value).concat("')")
            },
        }
    }

    /// What lies behind the error, in words, where its own words leave it out.
    pub fn cause(&self) -> (r: Option<String>)
        ensures
            match r {
                Some(text) => cause_text(self@) == Some(text@),
                None => cause_text(self@) is None,
            },
    {
        match self {
            ConfigError::Missing { cause, .. } => match cause {
                VarError::NotPresent => Some("environment variable not found".to_owned()),
                VarError::NotUnicode(raw) => Some(
                    "environment variable was not valid unicode: ".to_owned().concat(raw),
                ),
            },
            ConfigError::InvalidPort { cause, .. } => Some(number_error_message(*cause).to_owned()),
            _ => None,
        }
    }
}

} // verus!
