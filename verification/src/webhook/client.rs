//! The requests to the webhook.

use crate::config::Config;
use crate::decimal::{decimal, decimal_string, law_decimal_read_back, parsed, IntErrorKind};
use crate::text::optional_text;
use crate::webhook::plain_http::{
    allows_plain_http, has_http_prefix, is_plain_url, local_host, parse_uri, parsed_uri,
    plain_http_uri, url_host,
};
use crate::webhook::signature::{
    compute_signature, signature, SIGNATURE_HEADER, TIMESTAMP_HEADER,
};
use vstd::prelude::*;
use vstd::utf8::encode_utf8;

verus! {

/// The name of this package.
pub const PACKAGE_NAME: &'static str = "mail_laser";

/// The version of this package.
pub const PACKAGE_VERSION: &'static str = "3.1.1";

/// Builds the requests to the webhook and judges the responses.
#[derive(Debug, Clone)]
pub struct WebhookClient {
    pub config: Config,
    /// What the client calls itself.
    pub user_agent: String,
    /// The key that requests are signed with; where there is none, they are not signed.
    pub signing_secret: Option<Vec<u8>>,
}

/// Which connections a client may make.
#[derive(Debug, Clone, Copy, PartialEq, Eq, Structural)]
pub enum Transport {
    HttpsOrHttp,
    HttpsOnly,
}

/// A request to the webhook.
#[derive(Debug, Clone)]
pub struct WebhookRequest {
    pub method: &'static str,
    pub url: String,
    /// Names and values, in order.
    pub headers: Vec<(String, String)>,
    pub body: String,
}

/// Why an e-mail could not be forwarded.
#[derive(Debug, Clone, PartialEq, Eq)]
pub enum WebhookError {
    /// The webhook's URL is none; the string says why.
    InvalidUrl(String),
    /// The webhook answered with a status that is no success.
    BadStatus { url: String, status: u16 },
}

/// The standard phrase for a status code, as `hyper::StatusCode` knows it.
pub uninterp spec fn reason_phrase(status: u16) -> Option<Seq<char>>;

/// Calls `hyper::StatusCode::canonical_reason`, on the status that `from_u16` makes of the number.
///
/// Trusted: the phrase is a function of the number; a number that is no status has none.
#[verifier::external_body]
fn canonical_reason(status: u16) -> (r: Option<&'static str>)
    ensures
        match r {
            Some(phrase) => reason_phrase(status) == Some(phrase@),
            None => reason_phrase(status) is None,
        },
        !(100 <= status <= 999) ==> r is None,
{
    match hyper::StatusCode::from_u16(status) {
        Ok(code) => code.canonical_reason(),
        Err(_) => None,
    }
}

/// A status in words: its number and its phrase.
pub open spec fn status_text(status: u16, phrase: Option<Seq<char>>) -> Seq<char> {
    decimal(status as nat) + " "@ + (match phrase {
        Some(phrase) => phrase,
        None => "<unknown status code>"@,
    })
}

/// The contents of [`WebhookError`].
#[verifier::ext_equal]
pub enum WebhookErrorView {
    InvalidUrl(Seq<char>),
    BadStatus { url: Seq<char>, status: u16 },
}

impl View for WebhookError {
    type V = WebhookErrorView;

    open spec fn view(&self) -> WebhookErrorView {
        match self {
            WebhookError::InvalidUrl(reason) => WebhookErrorView::InvalidUrl(reason@),
            WebhookError::BadStatus { url, status } => WebhookErrorView::BadStatus {
                url: url@,
                status: *status,
            },
        }
    }
}

/// An error in words.
pub open spec fn webhook_error_text(e: WebhookErrorView) -> Seq<char> {
    match e {
        WebhookErrorView::InvalidUrl(reason) => reason,
        WebhookErrorView::BadStatus { url, status } => "Webhook request to "@ + url
            + " failed with status: "@ + status_text(status, reason_phrase(status)),
    }
}

/// The status in words, given its phrase.
pub fn describe_status(status: u16, phrase: Option<&str>) -> (r: String)
    ensures
        match phrase {
            Some(phrase) => r@ == status_text(status, Some(phrase@)),
            None => r@ == status_text(status, None),
        },
{
    decimal_string(status as u64).concat(" ").concat(
        match phrase {
            Some(phrase) => phrase,
            None => "<unknown status code>",
        },
    )
}

impl WebhookError {
    /// The error in words.
    pub fn message(&self) -> (r: String)
        ensures
            r@ == webhook_error_text(self@),
    {
        match self {
            WebhookError::InvalidUrl(reason) => reason.clone(),
            WebhookError::BadStatus { url, status } => "Webhook request to ".to_owned().concat(
                url,
            ).concat(" failed with status: ").concat(
                &describe_status(*status, canonical_reason(*status)),
            ),
        }
    }
}

/// The headers of a request.
pub open spec fn request_headers(
    user_agent: Seq<char>,
    secret: Option<Seq<u8>>,
    timestamp: u64,
    body: Seq<char>,
) -> Seq<(Seq<char>, Seq<char>)> {
    let plain = seq![("content-type"@, "application/json"@), ("user-agent"@, user_agent)];
    match secret {
        Some(key) => plain + seq![
            (TIMESTAMP_HEADER@, decimal(timestamp as nat)),
            (SIGNATURE_HEADER@, "sha256="@ + signature(key, timestamp, encode_utf8(body))),
        ],
        None => plain,
    }
}

impl View for WebhookRequest {
    type V = (Seq<char>, Seq<char>, Seq<(Seq<char>, Seq<char>)>, Seq<char>);

    /// The method, the URL, the headers and the body.
    open spec fn view(&self) -> Self::V {
        (
            self.method@,
            self.url@,
            self.headers@.map_values(|h: (String, String)| (h.0@, h.1@)),
            self.body@,
        )
    }
}

/// The bytes of a key that may be missing.
pub open spec fn key_bytes(secret: Option<Vec<u8>>) -> Option<Seq<u8>> {
    match secret {
        Some(key) => Some(key@),
        None => None,
    }
}

/// The key that a secret of the settings is: its bytes in UTF-8.
pub open spec fn configured_key(secret: Option<Seq<char>>) -> Option<Seq<u8>> {
    match secret {
        Some(text) => Some(encode_utf8(text)),
        None => None,
    }
}

/// What the client calls itself: the name and the version of this package.
pub open spec fn own_user_agent() -> Seq<char> {
    PACKAGE_NAME@ + "/"@ + PACKAGE_VERSION@
}

impl WebhookClient {
    /// A client for the webhook of the settings.
    pub fn new(config: Config) -> (r: Self)
        ensures
            r.config == config,
            r.user_agent@ == own_user_agent(),
            key_bytes(r.signing_secret) == configured_key(
                optional_text(config.webhook_signing_secret),
            ),
    {
        let user_agent = PACKAGE_NAME.to_owned().concat("/").concat(PACKAGE_VERSION);
        let signing_secret = match &config.webhook_signing_secret {
            Some(secret) => Some(secret.as_str().as_bytes_vec()),
            None => None,
        };
        WebhookClient { config, user_agent, signing_secret }
    }

    /// Which connections may be made to the webhook. A debug build connects to anything; a release
    /// build uses plain HTTP only where [`allows_plain_http`] says so.
    pub fn transport(&self, debug_build: bool) -> (r: Transport)
        ensures
            r == (if debug_build || plain_http_uri(parsed_uri(self.config.webhook_url@)) {
                Transport::HttpsOrHttp
            } else {
                Transport::HttpsOnly
            }),
            r == Transport::HttpsOrHttp <==> debug_build || (parsed_uri(
                self.config.webhook_url@,
            ) is Ok && has_http_prefix(self.config.webhook_url@) && local_host(
                url_host(self.config.webhook_url@),
            )),
    {
        if debug_build || allows_plain_http(&self.config.webhook_url) {
            Transport::HttpsOrHttp
        } else {
            Transport::HttpsOnly
        }
    }

    /// The request that forwards an e-mail: `json_body` is the e-mail in JSON, `timestamp` the time
    /// in seconds since the Unix epoch.
    ///
    /// With a signing secret, the request carries the time and the signature of
    /// `<timestamp>.<body>`; without one, neither.
    pub fn forward_email(&self, json_body: String, timestamp: u64) -> (r: Result<
        WebhookRequest,
        WebhookError,
    >)
        ensures
            match r {
                Ok(request) => parsed_uri(self.config.webhook_url@) is Ok && request@ == (
                    "POST"@,
                    self.config.webhook_url@,
                    request_headers(
                        self.user_agent@,
                        key_bytes(self.signing_secret),
                        timestamp,
                        json_body@,
                    ),
                    json_body@,
                ),
                Err(e) => parsed_uri(self.config.webhook_url@) matches Err(reason) && e@
                    == WebhookErrorView::InvalidUrl(reason),
            },
            is_plain_url(self.config.webhook_url@) ==> r is Ok,
    {
        match parse_uri(&self.config.webhook_url) {
            Ok(_) => {},
            Err(reason) => {
                return Err(WebhookError::InvalidUrl(reason));
            },
        }
        let ghost pair = |h: (String, String)| (h.0@, h.1@);
        let mut headers: Vec<(String, String)> = Vec::new();
        headers.push(("content-type".to_owned(), "application/json".to_owned()));
        headers.push(("user-agent".to_owned(), self.user_agent.clone()));
        if let Some(secret) = &self.signing_secret {
            let signature = compute_signature(
                secret.as_slice(),
                timestamp,
                json_body.as_str().as_bytes(),
            );
            headers.push((TIMESTAMP_HEADER.to_owned(), decimal_string(timestamp)));
            headers.push((SIGNATURE_HEADER.to_owned(), "sha256=".to_owned().concat(&signature)));
        }
        assert(headers@.map_values(pair) == request_headers(
            self.user_agent@,
            key_bytes(self.signing_secret),
            timestamp,
            json_body@,
        ));
        Ok(
            WebhookRequest {
                method: "POST",
                url: self.config.webhook_url.clone(),
                headers,
                body: json_body,
            },
        )
    }

    /// Whether the webhook took the e-mail, by the status of its response.
    pub fn check_response(&self, status: u16) -> (r: Result<(), WebhookError>)
        ensures
            match r {
                Ok(_) => 200 <= status <= 299,
                Err(e) => !(200 <= status <= 299) && e@ == (WebhookErrorView::BadStatus {
                    url: self.config.webhook_url@,
                    status,
                }),
            },
    {
        if status >= 200 && status <= 299 {
            Ok(())
        } else {
            Err(WebhookError::BadStatus { url: self.config.webhook_url.clone(), status })
        }
    }
}

/// The receiver of a signed request can check it: the time reads back from its header, and the
/// signature recomputed from that time, the body and the shared secret is the one in the header.
pub proof fn law_receiver_can_verify(
    user_agent: Seq<char>,
    secret: Seq<u8>,
    timestamp: u64,
    body: Seq<char>,
)
    ensures
        ({
            let headers = request_headers(user_agent, Some(secret), timestamp, body);
            &&& headers.len() == 4
            &&& headers[2].0 == TIMESTAMP_HEADER@
            &&& headers[3].0 == SIGNATURE_HEADER@
            &&& parsed(headers[2].1, u64::MAX as nat) == Ok::<nat, IntErrorKind>(timestamp as nat)
            &&& headers[3].1 == "sha256="@ + signature(
                secret,
                (parsed(headers[2].1, u64::MAX as nat)->Ok_0) as u64,
                encode_utf8(body),
            )
        }),
{
    law_decimal_read_back(timestamp as nat, u64::MAX as nat);
}

/// Without a secret, no request carries a time or a signature.
pub proof fn law_unsigned_without_secret(
    user_agent: Seq<char>,
    timestamp: u64,
    body: Seq<char>,
    i: int,
)
    requires
        0 <= i < request_headers(user_agent, None, timestamp, body).len(),
    ensures
        request_headers(user_agent, None, timestamp, body)[i].0 != TIMESTAMP_HEADER@,
        request_headers(user_agent, None, timestamp, body)[i].0 != SIGNATURE_HEADER@,
{
    reveal_strlit("content-type");
    reveal_strlit("user-agent");
    reveal_strlit("x-maillaser-timestamp");
    reveal_strlit("x-maillaser-signature-256");
    assert(TIMESTAMP_HEADER@.len() == 21);
    assert(SIGNATURE_HEADER@.len() == 25);
    assert("content-type"@.len() == 12);
    assert("user-agent"@.len() == 10);
}

} // verus!
