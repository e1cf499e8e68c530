//! What the client does, call by call.

use crate::config::Config;
use crate::decimal::{
    decimal, digits_value, is_digit, law_decimal_read_back, lemma_decimal_digits,
    lemma_digits_are_decimal, lemma_no_leading_zero, parsed, IntErrorKind,
};
use crate::ip::hex_digit_value;
use crate::webhook::client::{
    describe_status, reason_phrase, request_headers, Transport, WebhookClient, WebhookError,
    WebhookRequest,
};
use crate::webhook::plain_http::{allows_plain_http, is_plain_url};
use crate::webhook::signature::{compute_signature, hex, hex_digit, hmac_sha256, signed_message};
use vstd::prelude::*;
use vstd::utf8::{encode_utf8, is_ascii_chars_encode_utf8};

verus! {

/// A client keeps the settings, calls itself by the name and version of this package, and signs
/// with the bytes of the secret, if there is one.
pub proof fn law_new_client(config: Config, client: WebhookClient)
    requires
        call_ensures(WebhookClient::new, (config,), client),
    ensures
        client.config == config,
        client.user_agent@ == "mail_laser/3.1.1"@,
        match config.webhook_signing_secret {
            Some(secret) => client.signing_secret matches Some(key) && key@ == encode_utf8(secret@),
            None => client.signing_secret is None,
        },
{
    reveal_strlit("mail_laser/3.1.1");
    reveal_strlit("mail_laser");
    reveal_strlit("/");
    reveal_strlit("3.1.1");
}

/// Whatever the secret, a request says that it carries JSON and who sends it, first of all; without
/// a secret it says nothing else, with one it says two things more.
pub proof fn law_headers_of_every_request(
    user_agent: Seq<char>,
    secret: Option<Seq<u8>>,
    timestamp: u64,
    body: Seq<char>,
)
    ensures
        request_headers(user_agent, secret, timestamp, body).len() == (if secret is Some {
            4int
        } else {
            2
        }),
        request_headers(user_agent, secret, timestamp, body).take(2) == seq![
            ("content-type"@, "application/json"@),
            ("user-agent"@, user_agent),
        ],
{
    assert(request_headers(user_agent, secret, timestamp, body).take(2) =~= seq![
        ("content-type"@, "application/json"@),
        ("user-agent"@, user_agent),
    ]);
}

/// A request posts the body as it is to the webhook's URL, as JSON from this client.
pub proof fn law_request(
    client: WebhookClient,
    json_body: String,
    timestamp: u64,
    request: WebhookRequest,
)
    requires
        call_ensures(
            WebhookClient::forward_email,
            (&client, json_body, timestamp),
            Ok::<_, WebhookError>(request),
        ),
    ensures
        request.method@ == "POST"@,
        request.url@ == client.config.webhook_url@,
        request.body@ == json_body@,
        request.headers.len() == (if client.signing_secret is Some {
            4int
        } else {
            2
        }),
        request.headers[0].0@ == "content-type"@,
        request.headers[0].1@ == "application/json"@,
        request.headers[1].0@ == "user-agent"@,
        request.headers[1].1@ == client.user_agent@,
{
    let views = request.headers@.map_values(|h: (String, String)| (h.0@, h.1@));
    assert(views == request@.2);
    assert(views[0] == (request.headers[0].0@, request.headers[0].1@));
    assert(views[1] == (request.headers[1].0@, request.headers[1].1@));
}

/// A signed request carries its time in decimal, and the signature that [`compute_signature`] gives
/// for that time and the body, in the form `sha256=<hex>`.
pub proof fn law_signed_request(
    client: WebhookClient,
    json_body: String,
    timestamp: u64,
    request: WebhookRequest,
    key: Vec<u8>,
    secret: &[u8],
    body: &[u8],
    signature: String,
)
    requires
        call_ensures(
            WebhookClient::forward_email,
            (&client, json_body, timestamp),
            Ok::<_, WebhookError>(request),
        ),
        client.signing_secret == Some(key),
        secret@ == key@,
        body@ == encode_utf8(request.body@),
        call_ensures(compute_signature, (secret, timestamp, body), signature),
    ensures
        request.headers.len() == 4,
        request.headers[2].0@ == "x-maillaser-timestamp"@,
        parsed(request.headers[2].1@, u64::MAX as nat) == Ok::<nat, IntErrorKind>(
            timestamp as nat,
        ),
        request.headers[3].0@ == "x-maillaser-signature-256"@,
        request.headers[3].1@ == "sha256="@ + signature@,
{
    law_request(client, json_body, timestamp, request);
    let views = request.headers@.map_values(|h: (String, String)| (h.0@, h.1@));
    assert(views == request@.2);
    assert(views[2] == (request.headers[2].0@, request.headers[2].1@));
    assert(views[3] == (request.headers[3].0@, request.headers[3].1@));
    law_decimal_read_back(timestamp as nat, u64::MAX as nat);
}

/// Whether a request can be made, and if not, why, depends on the URL alone; an ordinary URL always
/// gives one.
pub proof fn law_request_fails_by_url(
    a: WebhookClient,
    b: WebhookClient,
    body_a: String,
    body_b: String,
    time_a: u64,
    time_b: u64,
    r: Result<WebhookRequest, WebhookError>,
    q: Result<WebhookRequest, WebhookError>,
)
    requires
        a.config.webhook_url@ == b.config.webhook_url@,
        call_ensures(WebhookClient::forward_email, (&a, body_a, time_a), r),
        call_ensures(WebhookClient::forward_email, (&b, body_b, time_b), q),
    ensures
        r is Ok <==> q is Ok,
        r matches Err(e) ==> q matches Err(f) && e@ == f@ && e is InvalidUrl,
        is_plain_url(a.config.webhook_url@) ==> r is Ok,
{
}

/// A response is a success exactly if its status is in the two hundreds; any other is reported with
/// the webhook's URL.
pub proof fn law_response(client: WebhookClient, status: u16, r: Result<(), WebhookError>)
    requires
        call_ensures(WebhookClient::check_response, (&client, status), r),
    ensures
        r is Ok <==> status / 100 == 2,
        r matches Err(e) ==> e matches WebhookError::BadStatus { url, status: reported } && url@
            == client.config.webhook_url@ && reported == status,
{
}

/// A debug build connects to anything; a release build over plain HTTP exactly where
/// [`allows_plain_http`] says so.
pub proof fn law_transport(
    client: WebhookClient,
    url: &str,
    debug_build: bool,
    allowed: bool,
    transport: Transport,
)
    requires
        url@ == client.config.webhook_url@,
        call_ensures(allows_plain_http, (url,), allowed),
        call_ensures(WebhookClient::transport, (&client, debug_build), transport),
    ensures
        transport == Transport::HttpsOrHttp <==> debug_build || allowed,
        transport == Transport::HttpsOnly <==> !debug_build && !allowed,
{
}

/// A status is described by its number, a space, and the phrase, or that there is none.
pub proof fn law_status_described(status: u16, phrase: Option<&str>, r: String)
    requires
        call_ensures(describe_status, (status, phrase), r),
    ensures
        r@.len() >= 2,
        exists|k: int|
            0 < k < r@.len() && #[trigger] r@[k] == ' ' && parsed(r@.take(k), u16::MAX as nat)
                == Ok::<nat, IntErrorKind>(status as nat) && r@.skip(k + 1) == (match phrase {
                Some(phrase) => phrase@,
                None => "<unknown status code>"@,
            }),
{
    let digits = decimal(status as nat);
    let k = digits.len() as int;
    lemma_decimal_digits(status as nat);
    law_decimal_read_back(status as nat, u16::MAX as nat);
    reveal_strlit(" ");
    reveal_strlit("<unknown status code>");
    assert(r@[k] == ' ');
    assert(r@.take(k) =~= digits);
    assert(r@.skip(k + 1) =~= (match phrase {
        Some(phrase) => phrase@,
        None => "<unknown status code>"@,
    }));
}

/// What is signed is the time in digits, the first of them no needless zero, then a dot, then the
/// body.
pub proof fn law_signed_message(timestamp: u64, body: Seq<u8>)
    ensures
        ({
            let m = signed_message(timestamp, body);
            let k = m.len() - body.len() - 1;
            &&& k >= 1
            &&& m.skip(k + 1) == body
            &&& m[k] == 46
            &&& forall|i: int| 0 <= i < k ==> 48 <= #[trigger] m[i] <= 57
            &&& k > 1 ==> m[0] != 48
            &&& digits_value(Seq::new(k as nat, |i: int| m[i] as char)) == timestamp
        }),
{
    let m = signed_message(timestamp, body);
    let text = decimal(timestamp as nat);
    let k = m.len() - body.len() - 1;
    lemma_decimal_digits(timestamp as nat);
    is_ascii_chars_encode_utf8(text);
    assert(k == text.len());
    assert(m.skip(k + 1) =~= body);
    assert forall|i: int| 0 <= i < k implies 48 <= #[trigger] m[i] <= 57 by {
        assert(is_digit(text[i]));
    }
    assert(Seq::new(k as nat, |i: int| m[i] as char) =~= text) by {
        assert forall|i: int| 0 <= i < k implies m[i] as char == text[i] by {
            assert(is_digit(text[i]));
        }
    }
    lemma_no_leading_zero(timestamp as nat);
}

/// Two hexadecimal digits give back the byte that they were written for, and they are in lower
/// case.
pub proof fn law_hex_read_back(bytes: Seq<u8>, i: int)
    requires
        0 <= i < bytes.len(),
    ensures
        hex(bytes).len() == 2 * bytes.len(),
        16 * hex_digit_value(hex(bytes)[2 * i]) + hex_digit_value(hex(bytes)[2 * i + 1])
            == bytes[i],
        !('A' <= hex(bytes)[2 * i] <= 'F'),
        !('A' <= hex(bytes)[2 * i + 1] <= 'F'),
{
    let (high, low) = (2 * i, 2 * i + 1);
    assert(high % 2 == 0 && high / 2 == i);
    assert(low % 2 == 1 && low / 2 == i);
    assert(hex(bytes)[high] == hex_digit(bytes[i] as int / 16));
    assert(hex(bytes)[low] == hex_digit(bytes[i] as int % 16));
}

/// A signature, read in hexadecimal, is the HMAC-SHA256 code of the time in decimal, a dot and the
/// body.
pub proof fn law_signature(
    secret: &[u8],
    timestamp: u64,
    body: &[u8],
    r: String,
    message: Seq<u8>,
    k: int,
    i: int,
)
    requires
        call_ensures(compute_signature, (secret, timestamp, body), r),
        1 <= k < message.len(),
        forall|j: int| 0 <= j < k ==> 48 <= #[trigger] message[j] <= 57,
        k > 1 ==> message[0] != 48,
        digits_value(Seq::new(k as nat, |j: int| message[j] as char)) == timestamp,
        message[k] == 46,
        message.skip(k + 1) == body@,
        0 <= i < hmac_sha256(secret@, message).len(),
    ensures
        r@.len() == 64,
        r@.len() == 2 * hmac_sha256(secret@, message).len(),
        16 * hex_digit_value(r@[2 * i]) + hex_digit_value(r@[2 * i + 1]) == hmac_sha256(
            secret@,
            message,
        )[i],
        !('A' <= r@[2 * i] <= 'F') && !('A' <= r@[2 * i + 1] <= 'F'),
{
    let text = Seq::new(k as nat, |j: int| message[j] as char);
    assert forall|j: int| 0 <= j < text.len() implies is_digit(#[trigger] text[j]) by {
        assert(48 <= message[j] <= 57);
    }
    lemma_digits_are_decimal(text);
    assert(text == decimal(timestamp as nat));
    is_ascii_chars_encode_utf8(text);
    assert(signed_message(timestamp, body@) =~= message) by {
        lemma_decimal_digits(timestamp as nat);
        assert forall|j: int| 0 <= j < message.len() implies message[j] == signed_message(
            timestamp,
            body@,
        )[j] by {
            if j < k {
                assert(text[j] == message[j] as char);
                assert(48 <= message[j] <= 57);
            } else if j > k {
                assert(message.skip(k + 1)[j - k - 1] == message[j]);
            }
        }
    }
    law_hex_read_back(hmac_sha256(secret@, message), i);
}

/// An error on the URL speaks for itself; one on a status names the webhook's URL and the status as
/// [`describe_status`] has it, the same words around them whatever they are.
pub proof fn law_error_message(
    e: WebhookError,
    message: String,
    status: u16,
    phrase: Option<&str>,
    described: String,
)
    requires
        call_ensures(WebhookError::message, (&e,), message),
        call_ensures(describe_status, (status, phrase), described),
        match phrase {
            Some(text) => reason_phrase(status) == Some(text@),
            None => reason_phrase(status) is None,
        },
    ensures
        e matches WebhookError::InvalidUrl(reason) ==> message@ == reason@,
        e matches WebhookError::BadStatus { url, status: reported } && reported == status ==> {
            let url = e->url@;
            let middle = " failed with status: "@;
            &&& message@.len() == 19 + url.len() + middle.len() + described@.len()
            &&& message@.take(19) == "Webhook request to "@
            &&& message@.subrange(19, 19 + url.len() as int) == url
            &&& (middle + described@).is_suffix_of(message@)
        },
{
    reveal_strlit("Webhook request to ");
    if let WebhookError::BadStatus { url, status: reported } = e {
        if reported == status {
            let end = " failed with status: "@ + described@;
            assert(message@.take(19) =~= "Webhook request to "@);
            assert(message@.subrange(19, 19 + url@.len() as int) =~= url@);
            assert(message@.skip(message@.len() - end.len()) =~= end);
        }
    }
}

} // verus!
