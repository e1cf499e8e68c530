use mail_laser::config::{AttachmentDelivery, Config, DmarcMode, DmarcTempErrorAction};
use mail_laser::webhook::client::{describe_status, PACKAGE_NAME, PACKAGE_VERSION};
use mail_laser::webhook::{
    compute_signature, Transport, WebhookClient, WebhookError, SIGNATURE_HEADER, TIMESTAMP_HEADER,
};

fn test_config() -> Config {
    Config {
        webhook_url: "http://example.com/webhook".to_string(),
        target_emails: vec!["test@example.com".to_string()],
        target_domains: vec![],
        smtp_bind_address: "127.0.0.1".to_string(),
        smtp_port: 2525,
        health_check_bind_address: "127.0.0.1".to_string(),
        health_check_port: 8080,
        header_prefixes: vec![],
        webhook_timeout_secs: 30,
        webhook_max_retries: 3,
        circuit_breaker_threshold: 5,
        circuit_breaker_reset_secs: 60,
        webhook_signing_secret: None,
        cedar_policies_path: "/tmp/policies.cedar".to_string(),
        cedar_entities_path: None,
        max_message_size_bytes: 26_214_400,
        max_attachment_size_bytes: 10_485_760,
        attachment_delivery: AttachmentDelivery::Inline,
        dmarc_mode: DmarcMode::Off,
        dmarc_dns_timeout_secs: 5,
        dmarc_dns_servers: vec![],
        dmarc_temperror_action: DmarcTempErrorAction::Reject,
        max_concurrent_per_ip: 0,
        max_unknown_rcpts_per_session: 0,
    }
}

fn client_for(url: &str, secret: Option<&str>) -> WebhookClient {
    let mut config = test_config();
    config.webhook_url = url.to_string();
    config.webhook_signing_secret = secret.map(|s| s.to_string());
    WebhookClient::new(config)
}

fn header<'a>(headers: &'a [(String, String)], name: &str) -> Option<&'a str> {
    headers.iter().find(|h| h.0.eq_ignore_ascii_case(name)).map(|h| h.1.as_str())
}

#[test]
fn test_webhook_client_user_agent() {
    let config = test_config();
    let client = WebhookClient::new(config);

    let expected_user_agent = format!("{}/{}", PACKAGE_NAME, PACKAGE_VERSION);

    assert_eq!(client.user_agent, expected_user_agent);
    assert_eq!(client.user_agent, "mail_laser/3.1.1");
}

#[test]
fn test_webhook_client_stores_signing_secret_bytes_when_configured() {
    let mut config = test_config();
    config.webhook_signing_secret = Some("shh".to_string());
    let client = WebhookClient::new(config);
    assert_eq!(client.signing_secret.as_deref(), Some(&b"shh"[..]));
}

#[test]
fn test_webhook_client_has_no_signing_secret_when_unset() {
    let client = WebhookClient::new(test_config());
    assert!(client.signing_secret.is_none());
}

#[test]
fn a_secret_is_taken_as_utf8() {
    let client = client_for("http://h/", Some("schlüssel"));
    assert_eq!(client.signing_secret.as_deref(), Some("schlüssel".as_bytes()));
}

#[test]
fn an_unsigned_request() {
    let request = client_for("https://h.example/hook?x=1", None)
        .forward_email("{\"a\":1}".to_string(), 17)
        .unwrap();
    assert_eq!(request.method, "POST");
    assert_eq!(request.url, "https://h.example/hook?x=1");
    assert_eq!(request.body, "{\"a\":1}");
    assert_eq!(
        request.headers,
        vec![
            ("content-type".to_string(), "application/json".to_string()),
            ("user-agent".to_string(), "mail_laser/3.1.1".to_string()),
        ]
    );
    assert_eq!(header(&request.headers, "X-MailLaser-Signature-256"), None);
    assert_eq!(header(&request.headers, "X-MailLaser-Timestamp"), None);
}

#[test]
fn a_signed_request_can_be_verified() {
    let secret = "shared-test-secret";
    let body = "{\"subject\":\"grüße\"}";
    let request = client_for("http://h/webhook", Some(secret))
        .forward_email(body.to_string(), 1_700_000_000)
        .unwrap();
    assert_eq!(request.headers.len(), 4);
    assert_eq!(request.headers[2].0, TIMESTAMP_HEADER);
    assert_eq!(request.headers[3].0, SIGNATURE_HEADER);

    let timestamp: u64 = header(&request.headers, "X-MailLaser-Timestamp").unwrap().parse().unwrap();
    let signature = header(&request.headers, "X-MailLaser-Signature-256").unwrap();
    assert_eq!(timestamp, 1_700_000_000);
    assert_eq!(
        signature.strip_prefix("sha256=").unwrap(),
        compute_signature(secret.as_bytes(), timestamp, request.body.as_bytes())
    );
}

#[test]
fn a_request_needs_a_url() {
    let empty = client_for("", None).forward_email(String::new(), 0).unwrap_err();
    assert_eq!(empty, WebhookError::InvalidUrl("empty string".to_string()));
    assert_eq!(empty.message(), "empty string");
    let spaced = client_for("http://a b/", None).forward_email(String::new(), 0).unwrap_err();
    assert_eq!(spaced.message(), "invalid uri character");
    assert!(matches!(
        client_for("http://", Some("s")).forward_email(String::new(), 0),
        Err(WebhookError::InvalidUrl(_))
    ));
}

#[test]
fn ordinary_urls_are_accepted() {
    for url in [
        "http://app:8000/api/v1/webhooks/mail-laser",
        "https://your-api.com/webhook",
        "HTTPS://A_b.c:1/x:y",
        "http://:80",
        "http://[::1]:8000/x",
        "http://[]",
        "https://[1:2:3:4:5:6:7::]?q",
        "http://[::::::::]:",
        "http://h?a=b&c=%20+~",
        "http://h/x?y?z/:",
        "http://h",
    ] {
        assert!(client_for(url, None).forward_email(String::new(), 0).is_ok(), "{url}");
    }
    let longest = format!("http://h/{}", "x".repeat(65534 - 9));
    assert!(client_for(&longest, None).forward_email(String::new(), 0).is_ok());
    let too_long = format!("{longest}x");
    assert!(client_for(&too_long, None).forward_email(String::new(), 0).is_err());
}

#[test]
fn every_success_status_is_accepted() {
    let client = client_for("http://h/webhook", None);
    for status in 0..=u16::MAX {
        assert_eq!(client.check_response(status).is_ok(), (200..300).contains(&status));
    }
}

#[test]
fn other_statuses_are_reported() {
    let client = client_for("http://h/webhook", None);
    let error = client.check_response(500).unwrap_err();
    assert_eq!(
        error,
        WebhookError::BadStatus { url: "http://h/webhook".to_string(), status: 500 }
    );
    assert_eq!(
        error.message(),
        "Webhook request to http://h/webhook failed with status: 500 Internal Server Error"
    );
    assert_eq!(
        client.check_response(599).unwrap_err().message(),
        "Webhook request to http://h/webhook failed with status: 599 <unknown status code>"
    );
}

#[test]
fn statuses_read_as_the_http_crate_writes_them() {
    for number in 100..1000 {
        let status = hyper::StatusCode::from_u16(number).unwrap();
        assert_eq!(describe_status(number, status.canonical_reason()), status.to_string());
    }
    assert_eq!(describe_status(7, None), "7 <unknown status code>");
}

#[test]
fn plain_http_in_release_builds() {
    let public = client_for("http://example.com/webhook", None);
    assert_eq!(public.transport(false), Transport::HttpsOnly);
    assert_eq!(public.transport(true), Transport::HttpsOrHttp);
    let service = client_for("http://app:8000/api/v1/webhooks/mail-laser", None);
    assert_eq!(service.transport(false), Transport::HttpsOrHttp);
    let secure = client_for("https://app/", None);
    assert_eq!(secure.transport(false), Transport::HttpsOnly);
}
