//! Where a webhook may be reached without TLS.

use crate::decimal::is_digit;
use crate::ip::{
    all_digits, ipv4, ipv6, ipv6_is_link_local, ipv6_is_loopback, ipv6_is_unique_local,
    is_hex_digit, lemma_ipv4_chars, lemma_ipv4_lowercase, lemma_ipv6_chars, lemma_ipv6_lowercase,
    parse_ipv4, parse_ipv6, v4_link_local, v4_loopback, v4_private, v6_link_local, v6_loopback,
    v6_unique_local,
};
use crate::text::{
    ascii_lowercase, contains_char, equals_ignoring_ascii_case, lemma_lower_char,
    lemma_trimmed_lowercase, optional_text, pieces, same_text, trim, trimmed, Strip,
};
use vstd::prelude::*;

verus! {

/// What the rule reads of a URL.
#[derive(Debug, Clone)]
pub struct UriParts {
    /// The scheme; `http` and `https` always in lower case.
    pub scheme: Option<String>,
    /// The host, an IPv6 literal with its brackets.
    pub host: Option<String>,
}

impl View for UriParts {
    type V = (Option<Seq<char>>, Option<Seq<char>>);

    open spec fn view(&self) -> Self::V {
        (optional_text(self.scheme), optional_text(self.host))
    }
}

/// What `hyper::Uri` makes of a text: its scheme and host, or the text of the error.
pub uninterp spec fn parsed_uri(url: Seq<char>) -> Result<
    (Option<Seq<char>>, Option<Seq<char>>),
    Seq<char>,
>;

/// Whether a URL begins with `http://`, in letters of either case.
pub open spec fn has_http_prefix(url: Seq<char>) -> bool {
    url.len() >= 7 && ascii_lowercase(url.take(7)) == "http://"@
}

/// Whether a URL begins with `https://`, in letters of either case.
pub open spec fn has_https_prefix(url: Seq<char>) -> bool {
    url.len() >= 8 && ascii_lowercase(url.take(8)) == "https://"@
}

/// `s` up to the first character of `stops`.
pub open spec fn before_any(s: Seq<char>, stops: Seq<char>) -> Seq<char>
    decreases s.len(),
{
    if s.len() == 0 || stops.contains(s.first()) {
        Seq::empty()
    } else {
        seq![s.first()] + before_any(s.drop_first(), stops)
    }
}

/// `s` behind the last `c`.
pub open spec fn behind_last(s: Seq<char>, c: char) -> Seq<char>
    decreases s.len(),
{
    if s.len() == 0 || s.last() == c {
        Seq::empty()
    } else {
        behind_last(s.drop_last(), c).push(s.last())
    }
}

/// What stands between `://` and the path, the query or the fragment.
pub open spec fn authority(behind_scheme: Seq<char>) -> Seq<char> {
    before_any(behind_scheme, seq!['/', '?', '#'])
}

/// The host of an `http://` URL: without user, port and path, an IPv6 literal with its brackets.
pub open spec fn url_host(url: Seq<char>) -> Seq<char> {
    let host_and_port = behind_last(authority(url.skip(7)), '@');
    if host_and_port.len() > 0 && host_and_port.first() == '[' {
        before_any(host_and_port, seq![']']).push(']')
    } else {
        before_any(host_and_port, seq![':'])
    }
}

/// Whether a character needs no care in the name of a host.
pub open spec fn is_plain_host_char(c: char) -> bool {
    'a' <= c <= 'z' || 'A' <= c <= 'Z' || is_digit(c) || c == '-' || c == '.' || c == '_'
}

/// Whether a character needs no care in a path or a query.
pub open spec fn is_plain_path_char(c: char) -> bool {
    ||| is_plain_host_char(c)
    ||| c == '/'
    ||| c == '?'
    ||| c == ':'
    ||| c == '='
    ||| c == '&'
    ||| c == '%'
    ||| c == '+'
    ||| c == '~'
}

/// Whether a text is a name or an IPv4 literal in plain characters, with a port if any: at most one
/// colon.
pub open spec fn is_plain_name(s: Seq<char>) -> bool {
    &&& s.len() > 0
    &&& forall|i: int| 0 <= i < s.len() ==> is_plain_host_char(#[trigger] s[i]) || s[i] == ':'
    &&& pieces(s, ':').len() <= 2
}

/// Whether a text is an IPv6 literal in brackets, with a port if any: within the brackets digits,
/// dots and at most eight colons, behind them nothing or a colon and digits.
pub open spec fn is_plain_literal(s: Seq<char>) -> bool {
    let inner = before_any(s.skip(1), seq![']']);
    let port = s.skip(inner.len() as int + 2);
    &&& s.len() >= inner.len() + 2
    &&& s.first() == '['
    &&& forall|i: int|
        0 <= i < inner.len() ==> is_hex_digit(#[trigger] inner[i]) || inner[i] == ':' || inner[i]
            == '.'
    &&& pieces(inner, ':').len() <= 9
    &&& port.len() > 0 ==> port.first() == ':' && all_digits(port.skip(1))
}

/// Whether what follows `://` is a host, a port if any, and a path and a query if any, in plain
/// characters.
pub open spec fn is_plain_address(s: Seq<char>) -> bool {
    let host = authority(s);
    &&& is_plain_name(host) || is_plain_literal(host)
    &&& forall|i: int| host.len() <= i < s.len() ==> is_plain_path_char(#[trigger] s[i])
}

/// Whether a text is an ordinary URL: `http` or `https`, a host, a port if any, and a path and a
/// query if any, in plain characters and not too long.
pub open spec fn is_plain_url(url: Seq<char>) -> bool {
    &&& url.len() < 65535
    &&& has_http_prefix(url) && is_plain_address(url.skip(7)) || has_https_prefix(url)
        && is_plain_address(url.skip(8))
}

/// Parses a text with `hyper::Uri` (`FromStr`), and reads its `scheme_str` and `host`.
///
/// Trusted: the outcome is a function of the text, and an ordinary URL parses. Where a text parses,
/// the scheme is `http` exactly if the text begins with `http://` in letters of either case, and
/// then the host is what stands between the user, if any, and the port, the path or the end.
#[verifier::external_body]
pub(crate) fn parse_uri(url: &str) -> (r: Result<UriParts, String>)
    ensures
        match r {
            Ok(parts) => parsed_uri(url@) == Ok::<_, Seq<char>>(parts@),
            Err(e) => parsed_uri(url@) == Err::<(Option<Seq<char>>, Option<Seq<char>>), _>(e@),
        },
        r matches Ok(parts) ==> (parts@.0 == Some("http"@) <==> has_http_prefix(url@)),
        r matches Ok(parts) ==> has_http_prefix(url@) ==> parts@.1 == Some(url_host(url@)),
        is_plain_url(url@) ==> r is Ok,
{
    match url.parse::<hyper::Uri>() {
        Ok(uri) => Ok(
            UriParts {
                scheme: uri.scheme_str().map(|s| s.to_string()),
                host: uri.host().map(|s| s.to_string()),
            },
        ),
        Err(e) => Err(e.to_string()),
    }
}

/// Whether a host is on this machine or its private network: `localhost`; an IP literal that is
/// loopback, private or link-local; or a name of a single label, such as a container's.
pub open spec fn local_host(host: Seq<char>) -> bool {
    let h = trimmed(host, Strip::Brackets);
    if ascii_lowercase(h) == "localhost"@ {
        true
    } else if ipv4(h) is Some {
        let v4 = ipv4(h)->0;
        v4_loopback(v4) || v4_private(v4) || v4_link_local(v4)
    } else if ipv6(h) is Some {
        let v6 = ipv6(h)->0;
        v6_loopback(v6) || v6_unique_local(v6) || v6_link_local(v6)
    } else {
        h.len() > 0 && !h.contains('.')
    }
}

/// Whether the URL of these parts may be reached over plain HTTP.
pub open spec fn plain_http_parts(parts: (Option<Seq<char>>, Option<Seq<char>>)) -> bool {
    parts.0 == Some("http"@) && parts.1 is Some && local_host(parts.1->0)
}

/// Whether a URL that parsed in this way may be reached over plain HTTP.
pub open spec fn plain_http_uri(
    uri: Result<(Option<Seq<char>>, Option<Seq<char>>), Seq<char>>,
) -> bool {
    uri is Ok && plain_http_parts(uri->Ok_0)
}

/// Whether `host`, as a URL writes it, is on this machine or its private network.
pub fn is_local_host(host: &str) -> (r: bool)
    ensures
        r == local_host(host@),
{
    let h = trim(host, Strip::Brackets);
    if equals_ignoring_ascii_case(h, "localhost") {
        return true;
    }
    if let Some(v4) = parse_ipv4(h) {
        return v4.is_loopback() || v4.is_private() || v4.is_link_local();
    }
    if let Some(v6) = parse_ipv6(h) {
        return ipv6_is_loopback(&v6) || ipv6_is_unique_local(&v6) || ipv6_is_link_local(&v6);
    }
    !h.is_empty() && !contains_char(h, '.')
}

/// Whether the URL of these parts may be reached over plain HTTP.
pub fn parts_allow_plain_http(parts: &UriParts) -> (r: bool)
    ensures
        r == plain_http_parts(parts@),
{
    match (&parts.scheme, &parts.host) {
        (Some(scheme), Some(host)) => same_text(scheme, "http") && is_local_host(host),
        _ => false,
    }
}

/// Whether a release build may use plain HTTP for `webhook_url`.
///
/// HTTPS is allowed everywhere and is no concern of this rule. Plain HTTP is restricted to
/// loopback, single-label host names, and private and link-local IP literals: never a public name.
pub fn allows_plain_http(webhook_url: &str) -> (r: bool)
    ensures
        r == plain_http_uri(parsed_uri(webhook_url@)),
        r == (parsed_uri(webhook_url@) is Ok && has_http_prefix(webhook_url@) && local_host(
            url_host(webhook_url@),
        )),
        is_plain_url(webhook_url@) ==> parsed_uri(webhook_url@) is Ok,
{
    match parse_uri(webhook_url) {
        Ok(parts) => parts_allow_plain_http(&parts),
        Err(_) => false,
    }
}

/// `localhost` is written without dots and colons.
pub proof fn lemma_localhost(h: Seq<char>)
    requires
        ascii_lowercase(h) == "localhost"@,
    ensures
        !h.contains('.'),
        !h.contains(':'),
{
    reveal_strlit("localhost");
    assert forall|k: int| 0 <= k < h.len() implies #[trigger] h[k] != '.' && h[k] != ':' by {
        let letter = "localhost"@[k];
        assert(ascii_lowercase(h)[k] == letter);
        assert(ascii_lowercase(h).len() == h.len());
        assert(k == 0 || k == 1 || k == 2 || k == 3 || k == 4 || k == 5 || k == 6 || k == 7 || k
            == 8);
        assert('a' <= letter <= 'z');
    }
}

/// A name with a dot in it that is no IP literal is public: plain HTTP is refused.
pub proof fn law_public_names_refused(host: Seq<char>)
    requires
        trimmed(host, Strip::Brackets).contains('.'),
        ipv4(trimmed(host, Strip::Brackets)) is None,
        ipv6(trimmed(host, Strip::Brackets)) is None,
    ensures
        !plain_http_parts((Some("http"@), Some(host))),
{
    let h = trimmed(host, Strip::Brackets);
    if ascii_lowercase(h) == "localhost"@ {
        lemma_localhost(h);
    }
}

/// A name without a dot that is no IP literal is a single label: plain HTTP is allowed.
pub proof fn law_single_label_names_allowed(host: Seq<char>)
    requires
        trimmed(host, Strip::Brackets).len() > 0,
        !trimmed(host, Strip::Brackets).contains('.'),
        ipv6(trimmed(host, Strip::Brackets)) is None,
    ensures
        plain_http_parts((Some("http"@), Some(host))),
{
    let h = trimmed(host, Strip::Brackets);
    if ipv4(h) is Some {
        lemma_ipv4_chars(h);
    }
}

/// An IPv4 literal may be reached over plain HTTP exactly if it is loopback, private or
/// link-local.
pub proof fn law_ipv4_literals(host: Seq<char>)
    requires
        ipv4(trimmed(host, Strip::Brackets)) is Some,
    ensures
        ({
            let v4 = ipv4(trimmed(host, Strip::Brackets))->0;
            plain_http_parts((Some("http"@), Some(host))) == (v4_loopback(v4) || v4_private(v4)
                || v4_link_local(v4))
        }),
{
    let h = trimmed(host, Strip::Brackets);
    lemma_ipv4_chars(h);
    if ascii_lowercase(h) == "localhost"@ {
        lemma_localhost(h);
    }
}

/// An IPv6 literal may be reached over plain HTTP exactly if it is loopback, private or
/// link-local.
pub proof fn law_ipv6_literals(host: Seq<char>)
    requires
        ipv6(trimmed(host, Strip::Brackets)) is Some,
    ensures
        ({
            let v6 = ipv6(trimmed(host, Strip::Brackets))->0;
            plain_http_parts((Some("http"@), Some(host))) == (v6_loopback(v6) || v6_unique_local(
                v6,
            ) || v6_link_local(v6))
        }),
{
    let h = trimmed(host, Strip::Brackets);
    lemma_ipv6_chars(h);
    let k = choose|k: int| 0 <= k < h.len() && h[k] == ':';
    if ipv4(h) is Some {
        lemma_ipv4_chars(h);
        assert(is_digit(h[k]));
    }
    if ascii_lowercase(h) == "localhost"@ {
        lemma_localhost(h);
    }
}

/// No other scheme is ever sent over plain HTTP, whatever the host.
pub proof fn law_other_schemes_refused(scheme: Option<Seq<char>>, host: Option<Seq<char>>)
    requires
        scheme != Some("http"@),
    ensures
        !plain_http_parts((scheme, host)),
{
}

proof fn lemma_local_host_lowercase(host: Seq<char>)
    ensures
        local_host(ascii_lowercase(host)) == local_host(host),
{
    let h = trimmed(host, Strip::Brackets);
    let low = ascii_lowercase(h);
    lemma_trimmed_lowercase(host);
    lemma_ipv4_lowercase(h);
    lemma_ipv6_lowercase(h);
    assert(ascii_lowercase(low) =~= low);
    if h.contains('.') {
        let k = choose|k: int| 0 <= k < h.len() && h[k] == '.';
        assert(low[k] == '.');
    }
    if low.contains('.') {
        let k = choose|k: int| 0 <= k < low.len() && low[k] == '.';
        lemma_lower_char(h[k], '.');
        assert(h[k] == '.');
    }
}

/// Upper and lower case make no difference to a host.
pub proof fn law_host_ignores_case(a: Seq<char>, b: Seq<char>)
    requires
        ascii_lowercase(a) == ascii_lowercase(b),
    ensures
        local_host(a) == local_host(b),
{
    lemma_local_host_lowercase(a);
    lemma_local_host_lowercase(b);
}

} // verus!
