use mail_laser::config::load::{
    attachment_delivery_named, dmarc_mode_named, temperror_action_named,
};
use mail_laser::config::{
    readings, AttachmentDelivery, Config, ConfigError, DmarcMode, DmarcTempErrorAction, EnvVars,
    S3Settings, Setting, VarError,
};
use mail_laser::decimal::IntErrorKind;

fn env(pairs: &[(&str, &str)]) -> EnvVars {
    EnvVars {
        vars: pairs
            .iter()
            .map(|(name, value)| (name.to_string(), Ok(value.to_string())))
            .collect(),
    }
}

const MINIMAL: [(&str, &str); 3] = [
    ("MAIL_LASER_TARGET_DOMAINS", "mail.myapp.com"),
    ("MAIL_LASER_WEBHOOK_URL", "https://myapp.com/email-hook"),
    ("MAIL_LASER_CEDAR_POLICIES", "/etc/mail-laser/policies.cedar"),
];

/// The minimal settings and more.
fn with(pairs: &[(&str, &str)]) -> EnvVars {
    let mut all = MINIMAL.to_vec();
    all.extend_from_slice(pairs);
    env(&all)
}

/// Reads the minimal settings and more.
fn read(pairs: &[(&str, &str)]) -> Result<Config, ConfigError> {
    Config::from_env(&with(pairs))
}

#[test]
fn minimal_settings_have_defaults() {
    let config = read(&[]).unwrap();
    assert!(config.target_emails.is_empty());
    assert_eq!(config.target_domains, vec!["mail.myapp.com"]);
    assert_eq!(config.webhook_url, "https://myapp.com/email-hook");
    assert_eq!(config.smtp_bind_address, "0.0.0.0");
    assert_eq!(config.smtp_port, 2525);
    assert_eq!(config.health_check_bind_address, "0.0.0.0");
    assert_eq!(config.health_check_port, 8080);
    assert!(config.header_prefixes.is_empty());
    assert_eq!(config.webhook_timeout_secs, 30);
    assert_eq!(config.webhook_max_retries, 3);
    assert_eq!(config.circuit_breaker_threshold, 5);
    assert_eq!(config.circuit_breaker_reset_secs, 60);
    assert_eq!(config.webhook_signing_secret, None);
    assert_eq!(config.cedar_policies_path, "/etc/mail-laser/policies.cedar");
    assert_eq!(config.cedar_entities_path, None);
    assert_eq!(config.max_message_size_bytes, 26_214_400);
    assert_eq!(config.max_attachment_size_bytes, 10_485_760);
    assert_eq!(config.attachment_delivery, AttachmentDelivery::Inline);
    assert_eq!(config.dmarc_mode, DmarcMode::Off);
    assert_eq!(config.dmarc_dns_timeout_secs, 5);
    assert!(config.dmarc_dns_servers.is_empty());
    assert_eq!(config.dmarc_temperror_action, DmarcTempErrorAction::Reject);
    assert_eq!(config.max_concurrent_per_ip, 10);
    assert_eq!(config.max_unknown_rcpts_per_session, 3);
}

#[test]
fn every_setting_can_be_set() {
    let config = read(&[
        ("MAIL_LASER_TARGET_EMAILS", "alerts@mydomain.com, support@mydomain.com,"),
        ("MAIL_LASER_BIND_ADDRESS", "127.0.0.1"),
        ("MAIL_LASER_PORT", "25"),
        ("MAIL_LASER_HEALTH_BIND_ADDRESS", "::1"),
        ("MAIL_LASER_HEALTH_PORT", "65535"),
        ("MAIL_LASER_HEADER_PREFIX", "X-Custom,X-My-App"),
        ("MAIL_LASER_WEBHOOK_TIMEOUT", "31"),
        ("MAIL_LASER_WEBHOOK_MAX_RETRIES", "0"),
        ("MAIL_LASER_CIRCUIT_BREAKER_THRESHOLD", "4294967295"),
        ("MAIL_LASER_CIRCUIT_BREAKER_RESET", "18446744073709551615"),
        ("MAIL_LASER_WEBHOOK_SIGNING_SECRET", "shh"),
        ("MAIL_LASER_CEDAR_ENTITIES", "/etc/entities.json"),
        ("MAIL_LASER_MAX_MESSAGE_SIZE", "1"),
        ("MAIL_LASER_MAX_ATTACHMENT_SIZE", "+2"),
        ("MAIL_LASER_ATTACHMENT_DELIVERY", "S3"),
        ("MAIL_LASER_S3_BUCKET", "bucket"),
        ("MAIL_LASER_S3_REGION", "eu-central-1"),
        ("MAIL_LASER_S3_ENDPOINT", "http://minio:9000"),
        ("MAIL_LASER_S3_KEY_PREFIX", "mail-laser/inbound/"),
        ("MAIL_LASER_S3_PRESIGN_TTL", "3600"),
        ("MAIL_LASER_DMARC_MODE", "Enforce"),
        ("MAIL_LASER_DMARC_DNS_TIMEOUT", "6"),
        ("MAIL_LASER_DMARC_DNS_SERVERS", "1.1.1.1:53 , 8.8.8.8:53"),
        ("MAIL_LASER_DMARC_TEMPERROR_ACTION", "ACCEPT"),
        ("MAIL_LASER_MAX_CONCURRENT_PER_IP", "0"),
        ("MAIL_LASER_MAX_UNKNOWN_RCPTS_PER_SESSION", "0"),
    ])
    .unwrap();
    assert_eq!(config.target_emails, vec!["alerts@mydomain.com", "support@mydomain.com"]);
    assert_eq!(config.smtp_bind_address, "127.0.0.1");
    assert_eq!(config.smtp_port, 25);
    assert_eq!(config.health_check_bind_address, "::1");
    assert_eq!(config.health_check_port, 65535);
    assert_eq!(config.header_prefixes, vec!["X-Custom", "X-My-App"]);
    assert_eq!(config.webhook_timeout_secs, 31);
    assert_eq!(config.webhook_max_retries, 0);
    assert_eq!(config.circuit_breaker_threshold, u32::MAX);
    assert_eq!(config.circuit_breaker_reset_secs, u64::MAX);
    assert_eq!(config.webhook_signing_secret.as_deref(), Some("shh"));
    assert_eq!(config.cedar_entities_path.as_deref(), Some("/etc/entities.json"));
    assert_eq!(config.max_message_size_bytes, 1);
    assert_eq!(config.max_attachment_size_bytes, 2);
    assert_eq!(
        config.attachment_delivery,
        AttachmentDelivery::S3(S3Settings {
            bucket: "bucket".to_string(),
            region: "eu-central-1".to_string(),
            endpoint: Some("http://minio:9000".to_string()),
            key_prefix: "mail-laser/inbound/".to_string(),
            presign_ttl_secs: Some(3600),
        })
    );
    assert_eq!(config.dmarc_mode, DmarcMode::Enforce);
    assert_eq!(config.dmarc_dns_timeout_secs, 6);
    assert_eq!(config.dmarc_dns_servers, vec!["1.1.1.1:53", "8.8.8.8:53"]);
    assert_eq!(config.dmarc_temperror_action, DmarcTempErrorAction::Accept);
    assert_eq!(config.max_concurrent_per_ip, 0);
    assert_eq!(config.max_unknown_rcpts_per_session, 0);
}

#[test]
fn someone_must_be_mailed() {
    for pairs in [
        vec![],
        vec![("MAIL_LASER_TARGET_EMAILS", " , ")],
        vec![("MAIL_LASER_TARGET_EMAILS", ""), ("MAIL_LASER_TARGET_DOMAINS", ",")],
    ] {
        let error = Config::from_env(&env(&pairs)).unwrap_err();
        assert_eq!(error, ConfigError::NoTargets);
        assert_eq!(
            error.message(),
            "At least one of MAIL_LASER_TARGET_EMAILS or MAIL_LASER_TARGET_DOMAINS must contain a valid entry"
        );
        assert_eq!(error.cause(), None);
    }
}

#[test]
fn required_variables() {
    let error = Config::from_env(&env(&MINIMAL[..1])).unwrap_err();
    assert_eq!(
        error,
        ConfigError::Missing { setting: Setting::WebhookUrl, cause: VarError::NotPresent }
    );
    assert_eq!(error.message(), "MAIL_LASER_WEBHOOK_URL environment variable must be set");
    assert_eq!(error.cause().as_deref(), Some("environment variable not found"));

    let error = Config::from_env(&env(&MINIMAL[..2])).unwrap_err();
    assert_eq!(error.message(), "MAIL_LASER_CEDAR_POLICIES environment variable must be set");
}

#[test]
fn values_that_are_not_unicode() {
    let mut vars = env(&MINIMAL).vars;
    vars[1].1 = Err("\"http://\\xFF\"".to_string());
    let error = Config::from_env(&EnvVars { vars }).unwrap_err();
    assert_eq!(error.message(), "MAIL_LASER_WEBHOOK_URL environment variable must be set");
    assert_eq!(
        error.cause().as_deref(),
        Some("environment variable was not valid unicode: \"http://\\xFF\"")
    );

    let mut vars = env(&MINIMAL).vars;
    vars.push(("MAIL_LASER_PORT".to_string(), Err("\"\\xFF\"".to_string())));
    assert_eq!(Config::from_env(&EnvVars { vars }).unwrap().smtp_port, 2525);
}

#[test]
fn the_first_of_two_variables_counts() {
    assert_eq!(
        read(&[("MAIL_LASER_PORT", "3000"), ("MAIL_LASER_PORT", "x")]).unwrap().smtp_port,
        3000
    );
}

#[test]
fn ports() {
    assert_eq!(read(&[("MAIL_LASER_PORT", "1")]).unwrap().smtp_port, 1);
    assert_eq!(read(&[("MAIL_LASER_HEALTH_PORT", "0")]).unwrap().health_check_port, 0);
    let error = read(&[("MAIL_LASER_PORT", "0")]).unwrap_err();
    assert_eq!(error, ConfigError::Zero { setting: Setting::Port });
    assert_eq!(error.message(), "MAIL_LASER_PORT must be greater than 0");
    let error = read(&[("MAIL_LASER_PORT", "65536")]).unwrap_err();
    assert_eq!(
        error,
        ConfigError::InvalidPort {
            setting: Setting::Port,
            value: "65536".to_string(),
            cause: IntErrorKind::PosOverflow,
        }
    );
    assert_eq!(error.message(), "MAIL_LASER_PORT ('65536') must be a valid u16 port number");
    assert_eq!(error.cause().as_deref(), Some("number too large to fit in target type"));

    let error = read(&[("MAIL_LASER_HEALTH_PORT", "not_a_port")]).unwrap_err();
    assert_eq!(
        error.message(),
        "MAIL_LASER_HEALTH_PORT ('not_a_port') must be a valid u16 port number"
    );
    assert_eq!(error.cause().as_deref(), Some("invalid digit found in string"));

    let error = read(&[("MAIL_LASER_HEALTH_PORT", "")]).unwrap_err();
    assert_eq!(error.cause().as_deref(), Some("cannot parse integer from empty string"));
}

#[test]
fn numbers_of_their_type() {
    for (name, too_large, kind) in [
        ("MAIL_LASER_WEBHOOK_TIMEOUT", "18446744073709551616", "u64"),
        ("MAIL_LASER_WEBHOOK_MAX_RETRIES", "4294967296", "u32"),
        ("MAIL_LASER_CIRCUIT_BREAKER_THRESHOLD", "4294967296", "u32"),
        ("MAIL_LASER_CIRCUIT_BREAKER_RESET", "18446744073709551616", "u64"),
        ("MAIL_LASER_MAX_MESSAGE_SIZE", "18446744073709551616", "u64"),
        ("MAIL_LASER_MAX_ATTACHMENT_SIZE", "18446744073709551616", "u64"),
        ("MAIL_LASER_DMARC_DNS_TIMEOUT", "18446744073709551616", "u64"),
        ("MAIL_LASER_MAX_CONCURRENT_PER_IP", "4294967296", "u32"),
        ("MAIL_LASER_MAX_UNKNOWN_RCPTS_PER_SESSION", "4294967296", "u32"),
    ] {
        let error = read(&[(name, too_large)]).unwrap_err();
        assert!(matches!(
            error,
            ConfigError::InvalidNumber { cause: IntErrorKind::PosOverflow, .. }
        ));
        assert_eq!(
            error.message(),
            format!("{name} must be a valid {kind}: number too large to fit in target type")
        );
        assert_eq!(error.cause(), None);
        assert_eq!(
            read(&[(name, "-1")]).unwrap_err().message(),
            format!("{name} must be a valid {kind}: invalid digit found in string")
        );
    }
}

#[test]
fn numbers_that_must_not_be_zero() {
    for name in [
        "MAIL_LASER_PORT",
        "MAIL_LASER_MAX_MESSAGE_SIZE",
        "MAIL_LASER_MAX_ATTACHMENT_SIZE",
        "MAIL_LASER_DMARC_DNS_TIMEOUT",
    ] {
        let error = read(&[(name, "0")]).unwrap_err();
        assert!(matches!(error, ConfigError::Zero { .. }));
        assert_eq!(error.message(), format!("{name} must be greater than 0"));
    }
}

#[test]
fn unknown_choices() {
    for (name, message) in [
        (
            "MAIL_LASER_DMARC_MODE",
            "MAIL_LASER_DMARC_MODE must be 'off', 'monitor', or 'enforce' (got 'maybe')",
        ),
        (
            "MAIL_LASER_DMARC_TEMPERROR_ACTION",
            "MAIL_LASER_DMARC_TEMPERROR_ACTION must be 'reject' or 'accept' (got 'maybe')",
        ),
        (
            "MAIL_LASER_ATTACHMENT_DELIVERY",
            "MAIL_LASER_ATTACHMENT_DELIVERY must be 'inline' or 's3' (got 'maybe')",
        ),
    ] {
        let error = read(&[(name, "MayBe")]).unwrap_err();
        assert!(matches!(error, ConfigError::UnknownChoice { .. }));
        assert_eq!(error.message(), message);
        assert!(read(&[(name, "")]).is_err());
    }
}

#[test]
fn choices_in_any_case() {
    for (value, mode) in [
        ("off", DmarcMode::Off),
        ("OFF", DmarcMode::Off),
        ("Monitor", DmarcMode::Monitor),
        ("ENFORCE", DmarcMode::Enforce),
    ] {
        assert_eq!(read(&[("MAIL_LASER_DMARC_MODE", value)]).unwrap().dmarc_mode, mode);
    }
    let error = read(&[("MAIL_LASER_DMARC_MODE", "MÖNITOR")]).unwrap_err();
    assert_eq!(
        error.message(),
        "MAIL_LASER_DMARC_MODE must be 'off', 'monitor', or 'enforce' (got 'mönitor')"
    );
}

#[test]
fn names_of_choices() {
    assert_eq!(dmarc_mode_named("monitor".to_string()), Ok(DmarcMode::Monitor));
    assert!(dmarc_mode_named("Monitor".to_string()).is_err());
    assert_eq!(temperror_action_named("accept".to_string()), Ok(DmarcTempErrorAction::Accept));
    assert!(temperror_action_named("off".to_string()).is_err());
    assert_eq!(
        attachment_delivery_named(&env(&[]), "inline".to_string()),
        Ok(AttachmentDelivery::Inline)
    );
}

#[test]
fn s3_needs_bucket_and_region() {
    let delivery = ("MAIL_LASER_ATTACHMENT_DELIVERY", "s3");
    let bucket = ("MAIL_LASER_S3_BUCKET", "b");
    let region = ("MAIL_LASER_S3_REGION", "r");
    let error = read(&[delivery, region]).unwrap_err();
    assert_eq!(
        error.message(),
        "MAIL_LASER_S3_BUCKET must be set when MAIL_LASER_ATTACHMENT_DELIVERY=s3"
    );
    assert_eq!(error.cause().as_deref(), Some("environment variable not found"));
    assert_eq!(
        read(&[delivery, bucket]).unwrap_err().message(),
        "MAIL_LASER_S3_REGION must be set when MAIL_LASER_ATTACHMENT_DELIVERY=s3"
    );
    assert_eq!(
        read(&[delivery, bucket, region]).unwrap().attachment_delivery,
        AttachmentDelivery::S3(S3Settings {
            bucket: "b".to_string(),
            region: "r".to_string(),
            endpoint: None,
            key_prefix: String::new(),
            presign_ttl_secs: None,
        })
    );
    assert_eq!(
        read(&[delivery, bucket, region, ("MAIL_LASER_S3_PRESIGN_TTL", "0")])
            .unwrap_err()
            .message(),
        "MAIL_LASER_S3_PRESIGN_TTL must be greater than 0"
    );
    assert_eq!(
        read(&[delivery, bucket, region, ("MAIL_LASER_S3_PRESIGN_TTL", "1h")])
            .unwrap_err()
            .message(),
        "MAIL_LASER_S3_PRESIGN_TTL must be a valid u64: invalid digit found in string"
    );
}

#[test]
fn s3_settings_are_ignored_inline() {
    let config = read(&[("MAIL_LASER_S3_PRESIGN_TTL", "0")]).unwrap();
    assert_eq!(config.attachment_delivery, AttachmentDelivery::Inline);
}

#[test]
fn an_empty_secret_is_none() {
    let secret = |value| {
        read(&[("MAIL_LASER_WEBHOOK_SIGNING_SECRET", value)]).unwrap().webhook_signing_secret
    };
    assert_eq!(secret(""), None);
    assert_eq!(secret(" "), Some(" ".to_string()));
}

#[test]
fn the_first_error_is_reported() {
    let error = Config::from_env(&env(&[
        ("MAIL_LASER_TARGET_EMAILS", "a@b"),
        ("MAIL_LASER_PORT", "x"),
    ]))
    .unwrap_err();
    assert!(matches!(error, ConfigError::Missing { setting: Setting::WebhookUrl, .. }));
    let error = read(&[("MAIL_LASER_DMARC_MODE", "x"), ("MAIL_LASER_PORT", "x")]).unwrap_err();
    assert!(matches!(error, ConfigError::InvalidPort { setting: Setting::Port, .. }));
    let error =
        read(&[("MAIL_LASER_DMARC_MODE", "x"), ("MAIL_LASER_ATTACHMENT_DELIVERY", "y")]).unwrap_err();
    assert!(matches!(
        error,
        ConfigError::UnknownChoice { setting: Setting::AttachmentDelivery, .. }
    ));
}

/// What was read, as text.
fn report(env: &EnvVars) -> Vec<String> {
    readings(env)
        .into_iter()
        .map(|r| format!("{:?} {} {:?}", r.setting, r.is_set, r.value))
        .collect()
}

#[test]
fn all_settings_are_reported_in_order() {
    let all = report(&with(&[
        ("MAIL_LASER_WEBHOOK_SIGNING_SECRET", "shh"),
        ("MAIL_LASER_BIND_ADDRESS", "127.0.0.1"),
    ]));
    assert_eq!(
        all,
        vec![
            "TargetEmails false List([])",
            "TargetDomains true List([\"mail.myapp.com\"])",
            "WebhookUrl true Text(\"https://myapp.com/email-hook\")",
            "CedarPolicies true Text(\"/etc/mail-laser/policies.cedar\")",
            "BindAddress true Text(\"127.0.0.1\")",
            "Port false Number(2525)",
            "HealthBindAddress false Text(\"0.0.0.0\")",
            "HealthPort false Number(8080)",
            "HeaderPrefix false List([])",
            "WebhookTimeout false Number(30)",
            "WebhookMaxRetries false Number(3)",
            "CircuitBreakerThreshold false Number(5)",
            "CircuitBreakerReset false Number(60)",
            "WebhookSigningSecret true Secret(true)",
            "MaxMessageSize false Number(26214400)",
            "MaxAttachmentSize false Number(10485760)",
            "AttachmentDelivery false Delivery(Inline)",
            "DmarcMode false DmarcMode(Off)",
            "DmarcDnsTimeout false Number(5)",
            "DmarcDnsServers false List([])",
            "DmarcTempErrorAction false TempErrorAction(Reject)",
            "MaxConcurrentPerIp false Number(10)",
            "MaxUnknownRcptsPerSession false Number(3)",
        ]
    );
    assert_eq!(
        report(&with(&[("MAIL_LASER_CEDAR_ENTITIES", "/e")]))[4],
        "CedarEntities true Text(\"/e\")"
    );
}

#[test]
fn reports_end_at_the_first_error() {
    assert!(report(&env(&[])).is_empty());
    assert_eq!(report(&env(&MINIMAL[..1])).len(), 2);
    let all = report(&with(&[("MAIL_LASER_PORT", "0")]));
    assert_eq!(all.last().unwrap(), "BindAddress false Text(\"0.0.0.0\")");
    let all = report(&with(&[("MAIL_LASER_DMARC_MODE", "maybe")]));
    assert_eq!(all.last().unwrap(), "AttachmentDelivery false Delivery(Inline)");
}

#[test]
fn secrets_are_not_reported() {
    let with_secret = |secret| report(&with(&[("MAIL_LASER_WEBHOOK_SIGNING_SECRET", secret)]));
    assert_eq!(with_secret("one"), with_secret("another"));
    assert_ne!(with_secret("one"), with_secret(""));
}
