//! Where a webhook may be reached without TLS, by its URL.

use crate::decimal::is_digit;
use crate::ip::laws::{
    dotted, is_group, lemma_dotted_of_ipv4, lemma_ipv4_of_dotted, lemma_ipv6_of_form, number, Form,
};
use crate::ip::{
    ipv4, ipv6, is_hex_digit, lemma_ipv4_chars, lemma_ipv6_chars, parse_ipv6, v4_link_local,
    v4_loopback, v4_private, v6_loopback, Ipv4,
};
use crate::text::laws::law_brackets;
use crate::text::{
    ascii_lowercase, joined, lemma_pieces_append, lemma_pieces_not_empty, lemma_single_piece,
    pieces, trim, trimmed, Strip,
};
use crate::webhook::plain_http::{
    allows_plain_http, authority, before_any, behind_last, has_http_prefix, is_local_host,
    is_plain_host_char, is_plain_literal, is_plain_name, is_plain_path_char, is_plain_url,
    lemma_localhost, local_host, parts_allow_plain_http, url_host, UriParts,
};
use vstd::prelude::*;

verus! {

/// Whether an IPv4 address, as a number, is in one of the blocks that are not public: 127.0.0.0/8;
/// 10.0.0.0/8, 172.16.0.0/12, 192.168.0.0/16; 169.254.0.0/16.
pub open spec fn is_near(v4: Ipv4) -> bool {
    ||| number(v4) / 0x100_0000 == 127
    ||| number(v4) / 0x100_0000 == 10
    ||| number(v4) / 0x10_0000 == 172 * 16 + 1
    ||| number(v4) / 0x1_0000 == 192 * 256 + 168
    ||| number(v4) / 0x1_0000 == 169 * 256 + 254
}

/// Whether an IPv6 address, as it is written, is not public: `::1`, in fc00::/7, or in fe80::/10.
pub open spec fn is_near_v6(form: Form) -> bool {
    ||| form.group(7) == 1 && forall|i: int| 0 <= i < 7 ==> #[trigger] form.group(i) == 0
    ||| form.group(0) / 512 == 126
    ||| form.group(0) / 64 == 1018
}

/// Whether a name is one of a machine nearby: a single label, or an IPv4 address that is not
/// public.
pub open spec fn is_near_name(host: Seq<char>) -> bool {
    !host.contains('.') || exists|v4: Ipv4| host == #[trigger] dotted(v4) && is_near(v4)
}

proof fn lemma_ranges(v4: Ipv4)
    ensures
        is_near(v4) <==> v4_loopback(v4) || v4_private(v4) || v4_link_local(v4),
{
    assert(number(v4) / 0x100_0000 == v4.a);
    assert(number(v4) / 0x10_0000 == v4.a * 16 + v4.b as int / 16);
    assert(number(v4) / 0x1_0000 == v4.a * 256 + v4.b);
}

/// What stands before the first stop.
proof fn lemma_before(s: Seq<char>, rest: Seq<char>, stops: Seq<char>)
    requires
        forall|i: int| 0 <= i < s.len() ==> !stops.contains(#[trigger] s[i]),
        rest.len() > 0 ==> stops.contains(rest[0]),
    ensures
        before_any(s + rest, stops) == s,
    decreases s.len(),
{
    if s.len() > 0 {
        let tail = s.drop_first();
        assert forall|i: int| 0 <= i < tail.len() implies !stops.contains(#[trigger] tail[i]) by {
            assert(tail[i] == s[i + 1]);
        }
        lemma_before(tail, rest, stops);
        assert((s + rest).drop_first() =~= tail + rest);
        assert((s + rest).first() == s[0]);
        assert(seq![s[0]] + tail =~= s);
    } else {
        assert(s + rest =~= rest);
        assert(s =~= Seq::<char>::empty());
    }
}

/// What stands behind the last `c`.
proof fn lemma_behind(front: Seq<char>, s: Seq<char>, c: char)
    requires
        !s.contains(c),
        front.len() > 0 ==> front.last() == c,
    ensures
        behind_last(front + s, c) == s,
    decreases s.len(),
{
    if s.len() > 0 {
        let head = s.drop_last();
        assert(s[s.len() - 1] != c);
        assert(!head.contains(c)) by {
            if head.contains(c) {
                let k = choose|k: int| 0 <= k < head.len() && head[k] == c;
                assert(s[k] == c);
            }
        }
        lemma_behind(front, head, c);
        assert((front + s).drop_last() =~= front + head);
        assert(head.push(s.last()) =~= s);
    } else {
        assert(front + s =~= front);
        assert(s =~= Seq::<char>::empty());
    }
}

/// Which names are local.
proof fn lemma_local_name(host: Seq<char>)
    requires
        host.len() > 0,
        forall|i: int| 0 <= i < host.len() ==> is_plain_host_char(#[trigger] host[i]),
    ensures
        local_host(host) == is_near_name(host),
{
    assert(is_plain_host_char(host[0]));
    assert(is_plain_host_char(host[host.len() - 1]));
    law_brackets(host);
    if ascii_lowercase(host) == "localhost"@ {
        lemma_localhost(host);
    }
    if ipv6(host) is Some {
        lemma_ipv6_chars(host);
        let k = choose|k: int| 0 <= k < host.len() && host[k] == ':';
        assert(is_plain_host_char(host[k]));
    }
    if ipv4(host) is Some {
        let v4 = ipv4(host)->0;
        lemma_ipv4_chars(host);
        lemma_dotted_of_ipv4(host);
        lemma_ranges(v4);
        assert forall|other: Ipv4| host == #[trigger] dotted(other) implies other == v4 by {
            lemma_ipv4_of_dotted(other);
        }
    } else {
        assert forall|other: Ipv4| host != #[trigger] dotted(other) by {
            lemma_ipv4_of_dotted(other);
        }
    }
}

/// The host of a URL whose authority is `user`, a host, and a port.
proof fn lemma_url_host(
    url: Seq<char>,
    scheme: Seq<char>,
    user: Seq<char>,
    host: Seq<char>,
    port: Seq<char>,
    path: Seq<char>,
)
    requires
        url == scheme + (user + host + port + path),
        ascii_lowercase(scheme) == "http://"@,
        user.len() > 0 ==> user.last() == '@',
        !user.contains('/') && !user.contains('?') && !user.contains('#'),
        host.len() > 0,
        forall|i: int| 0 <= i < host.len() ==> is_plain_host_char(#[trigger] host[i]),
        port.len() > 0 ==> port[0] == ':',
        forall|i: int| 1 <= i < port.len() ==> '0' <= #[trigger] port[i] <= '9',
        path.len() > 0 ==> path[0] == '/' || path[0] == '?' || path[0] == '#',
    ensures
        has_http_prefix(url),
        url.skip(7) == user + host + port + path,
        authority(url.skip(7)) == user + host + port,
        url_host(url) == host,
{
    reveal_strlit("http://");
    assert(scheme.len() == 7) by {
        assert(ascii_lowercase(scheme).len() == scheme.len());
    }
    assert(url.take(7) =~= scheme);
    let s = user + host + port + path;
    assert(url.skip(7) =~= s);
    let host_port = host + port;
    let auth = user + host + port;
    let stops = seq!['/', '?', '#'];
    assert forall|i: int| 0 <= i < auth.len() implies !stops.contains(#[trigger] auth[i]) by {
        lemma_stops(auth[i]);
        if i < user.len() {
            assert(auth[i] == user[i]);
            assert(user.contains(user[i]));
        } else if i < user.len() + host.len() {
            assert(is_plain_host_char(host[i - user.len()]));
        } else {
            let k = i - user.len() - host.len();
            assert(auth[i] == port[k]);
            if k > 0 {
                assert('0' <= port[k] <= '9');
            }
        }
    }
    if path.len() > 0 {
        lemma_stops(path[0]);
    }
    lemma_before(auth, path, stops);
    assert(auth =~= user + host_port);
    assert(!host_port.contains('@')) by {
        if host_port.contains('@') {
            let k = choose|k: int| 0 <= k < host_port.len() && host_port[k] == '@';
            if k < host.len() {
                assert(is_plain_host_char(host[k]));
            } else if k > host.len() {
                assert('0' <= port[k - host.len()] <= '9');
            }
        }
    }
    lemma_behind(user, host_port, '@');
    assert(is_plain_host_char(host[0]));
    assert(host_port.first() == host[0]);
    let colon = seq![':'];
    assert(colon[0] == ':');
    assert forall|i: int| 0 <= i < host.len() implies !colon.contains(#[trigger] host[i]) by {
        assert(is_plain_host_char(host[i]));
    }
    lemma_before(host, port, colon);
}

proof fn lemma_stops(c: char)
    ensures
        seq!['/', '?', '#'].contains(c) <==> c == '/' || c == '?' || c == '#',
{
    let stops = seq!['/', '?', '#'];
    assert(stops[0] == '/' && stops[1] == '?' && stops[2] == '#');
}

/// A URL of a host name or an IPv4 address, with a port or without, and with a path and a query or
/// without, may be reached over plain HTTP exactly if the host is nearby: a single label, or an
/// address of a block that is not public.
pub proof fn law_plain_http_to_name(
    url: &str,
    r: bool,
    scheme: Seq<char>,
    host: Seq<char>,
    port: Seq<char>,
    path: Seq<char>,
)
    requires
        call_ensures(allows_plain_http, (url,), r),
        url@ == scheme + (host + port + path),
        url@.len() < 65535,
        ascii_lowercase(scheme) == "http://"@,
        host.len() > 0,
        forall|i: int|
            0 <= i < host.len() ==> {
                ||| 'a' <= #[trigger] host[i] <= 'z'
                ||| 'A' <= host[i] <= 'Z'
                ||| '0' <= host[i] <= '9'
                ||| host[i] == '-'
                ||| host[i] == '.'
                ||| host[i] == '_'
            },
        port.len() > 0 ==> port[0] == ':',
        forall|i: int| 1 <= i < port.len() ==> '0' <= #[trigger] port[i] <= '9',
        path.len() > 0 ==> path[0] == '/' || path[0] == '?',
        forall|i: int|
            0 <= i < path.len() ==> {
                ||| 'a' <= #[trigger] path[i] <= 'z'
                ||| 'A' <= path[i] <= 'Z'
                ||| '-' <= path[i] <= ':'
                ||| path[i] == '_'
                ||| path[i] == '?'
                ||| path[i] == '='
                ||| path[i] == '&'
                ||| path[i] == '%'
                ||| path[i] == '+'
                ||| path[i] == '~'
            },
    ensures
        r <==> is_near_name(host),
{
    let none = Seq::<char>::empty();
    assert forall|i: int| 0 <= i < host.len() implies is_plain_host_char(#[trigger] host[i]) by {}
    assert(none + host + port + path =~= host + port + path);
    lemma_url_host(url@, scheme, none, host, port, path);
    lemma_local_name(host);
    let s = url@.skip(7);
    let name = authority(s);
    assert(none + host + port =~= host + port);
    assert forall|i: int| 0 <= i < name.len() implies is_plain_host_char(#[trigger] name[i])
        || name[i] == ':' by {
        if i < host.len() {
            assert(name[i] == host[i]);
        } else {
            let k = i - host.len();
            assert(name[i] == port[k]);
            if k > 0 {
                assert('0' <= port[k] <= '9');
            }
        }
    }
    lemma_colons(host, port);
    assert forall|i: int| name.len() <= i < s.len() implies is_plain_path_char(#[trigger] s[i]) by {
        assert(s[i] == path[i - name.len()]);
    }
    assert(is_plain_name(name));
    assert(is_plain_url(url@));
}

/// A name and a port hold at most one colon.
proof fn lemma_colons(host: Seq<char>, port: Seq<char>)
    requires
        forall|i: int| 0 <= i < host.len() ==> is_plain_host_char(#[trigger] host[i]),
        port.len() > 0 ==> port[0] == ':',
        forall|i: int| 1 <= i < port.len() ==> '0' <= #[trigger] port[i] <= '9',
    ensures
        pieces(host + port, ':').len() <= 2,
{
    assert(!host.contains(':')) by {
        if host.contains(':') {
            let k = choose|k: int| 0 <= k < host.len() && host[k] == ':';
            assert(is_plain_host_char(host[k]));
        }
    }
    lemma_single_piece(host, ':');
    if port.len() == 0 {
        assert(host + port =~= host);
    } else {
        let digits = port.drop_first();
        assert(!digits.contains(':')) by {
            if digits.contains(':') {
                let k = choose|k: int| 0 <= k < digits.len() && digits[k] == ':';
                assert('0' <= port[k + 1] <= '9');
            }
        }
        lemma_pieces_append(host, digits, ':');
        assert(host + port =~= host.push(':') + digits);
    }
}

/// A user in front of the host is not taken for the host: if a URL with one may be reached over
/// plain HTTP at all, the host behind the last `@` is nearby.
pub proof fn law_user_is_not_the_host(
    url: &str,
    r: bool,
    scheme: Seq<char>,
    user: Seq<char>,
    host: Seq<char>,
    port: Seq<char>,
    path: Seq<char>,
)
    requires
        call_ensures(allows_plain_http, (url,), r),
        url@ == scheme + (user + host + port + path),
        ascii_lowercase(scheme) == "http://"@,
        user.len() > 0 ==> user.last() == '@',
        !user.contains('/') && !user.contains('?') && !user.contains('#'),
        host.len() > 0,
        forall|i: int| 0 <= i < host.len() ==> is_plain_host_char(#[trigger] host[i]),
        port.len() > 0 ==> port[0] == ':',
        forall|i: int| 1 <= i < port.len() ==> '0' <= #[trigger] port[i] <= '9',
        path.len() > 0 ==> path[0] == '/' || path[0] == '?' || path[0] == '#',
    ensures
        r ==> is_near_name(host),
{
    lemma_url_host(url@, scheme, user, host, port, path);
    lemma_local_name(host);
}

/// A text that does not begin with `http://`, in letters of either case, is never reached over
/// plain HTTP.
pub proof fn law_only_http(url: &str, r: bool)
    requires
        call_ensures(allows_plain_http, (url,), r),
    ensures
        r ==> url@.len() > 7 && ascii_lowercase(url@.take(7)) == "http://"@,
{
    if r && url@.len() == 7 {
        let s = url@.skip(7);
        assert(s =~= Seq::<char>::empty());
        assert(authority(s) =~= Seq::<char>::empty());
        assert(behind_last(authority(s), '@') =~= Seq::<char>::empty());
        let h = url_host(url@);
        assert(h =~= Seq::<char>::empty());
        assert(trimmed(h, Strip::Brackets) =~= Seq::<char>::empty());
        reveal_strlit("localhost");
        assert(ascii_lowercase(h).len() == 0);
        if ipv4(h) is Some {
            lemma_ipv4_chars(h);
        }
        if ipv6(h) is Some {
            lemma_ipv6_chars(h);
        }
    }
}

/// Which names of hosts are nearby.
pub proof fn law_local_name(host: &str, r: bool)
    requires
        call_ensures(is_local_host, (host,), r),
        host@.len() > 0,
        forall|i: int|
            0 <= i < host@.len() ==> {
                ||| 'a' <= #[trigger] host@[i] <= 'z'
                ||| 'A' <= host@[i] <= 'Z'
                ||| '0' <= host@[i] <= '9'
                ||| host@[i] == '-'
                ||| host@[i] == '.'
                ||| host@[i] == '_'
            },
    ensures
        r <==> is_near_name(host@),
{
    assert forall|i: int| 0 <= i < host@.len() implies is_plain_host_char(
        #[trigger] host@[i],
    ) by {}
    lemma_local_name(host@);
}

/// A scheme and a host are reached over plain HTTP exactly if the scheme is `http` and the host is
/// nearby.
pub proof fn law_parts(parts: UriParts, r: bool, host: &str, local: bool)
    requires
        call_ensures(parts_allow_plain_http, (&parts,), r),
        call_ensures(is_local_host, (host,), local),
        parts.host matches Some(h) ==> h@ == host@,
    ensures
        r <==> parts.host is Some && local && (parts.scheme matches Some(scheme) && scheme@
            == "http"@),
{
}

/// What stands on both sides of a separator comes apart on its own.
proof fn lemma_pieces_around(a: Seq<char>, b: Seq<char>, sep: char)
    ensures
        pieces(a.push(sep) + b, sep) == pieces(a, sep) + pieces(b, sep),
    decreases b.len(),
{
    let all = a.push(sep) + b;
    if b.len() == 0 {
        assert(all =~= a.push(sep));
        assert(all.drop_last() =~= a);
        assert(pieces(all, sep) =~= pieces(a, sep) + pieces(b, sep));
    } else {
        let front = b.drop_last();
        lemma_pieces_around(a, front, sep);
        lemma_pieces_not_empty(front, sep);
        assert(all.drop_last() =~= a.push(sep) + front);
        assert(all.last() == b.last());
        let before = pieces(a, sep) + pieces(front, sep);
        assert(before.drop_last() =~= pieces(a, sep) + pieces(front, sep).drop_last());
        assert(before.last() == pieces(front, sep).last());
        assert(pieces(all, sep) =~= pieces(a, sep) + pieces(b, sep));
    }
}

/// Whether a character may stand within the brackets of an IPv6 address.
spec fn is_literal_char(c: char) -> bool {
    is_hex_digit(c) || c == ':' || c == '.'
}

/// Texts of such characters, joined with colons, hold no others, and come apart into as many pieces
/// as there are.
proof fn lemma_joined_literal(parts: Seq<Seq<char>>)
    requires
        forall|i: int, j: int|
            0 <= i < parts.len() && 0 <= j < parts[i].len() ==> is_literal_char(
                #[trigger] parts[i][j],
            ) && parts[i][j] != ':',
    ensures
        forall|k: int|
            0 <= k < joined(parts, ':').len() ==> is_literal_char(
                #[trigger] joined(parts, ':')[k],
            ),
        parts.len() > 0 ==> pieces(joined(parts, ':'), ':').len() == parts.len(),
        parts.len() == 0 ==> pieces(joined(parts, ':'), ':').len() == 1,
    decreases parts.len(),
{
    let s = joined(parts, ':');
    if parts.len() > 0 {
        let last = parts.last();
        assert(last == parts[parts.len() - 1]);
        assert(!last.contains(':')) by {
            if last.contains(':') {
                let k = choose|k: int| 0 <= k < last.len() && last[k] == ':';
                assert(parts[parts.len() - 1][k] != ':');
            }
        }
        if parts.len() == 1 {
            assert(s == parts[0]);
            lemma_single_piece(last, ':');
        } else {
            let front = parts.drop_last();
            assert forall|i: int, j: int| 0 <= i < front.len() && 0 <= j < front[i].len() implies
                is_literal_char(#[trigger] front[i][j]) && front[i][j] != ':' by {
                assert(front[i][j] == parts[i][j]);
            }
            lemma_joined_literal(front);
            lemma_pieces_append(joined(front, ':'), last, ':');
            let before = joined(front, ':');
            assert forall|k: int| 0 <= k < s.len() implies is_literal_char(#[trigger] s[k]) by {
                if k < before.len() {
                    assert(s[k] == before[k]);
                } else if k > before.len() {
                    assert(s[k] == parts[parts.len() - 1][k - before.len() - 1]);
                }
            }
        }
    }
}

/// An IPv6 address, as it is written: its characters, and how many colons there are.
proof fn lemma_form_text(form: Form)
    requires
        form.is_made_of_groups(),
        form.has_room(),
    ensures
        form.text().len() > 0,
        forall|k: int|
            0 <= k < form.text().len() ==> is_literal_char(#[trigger] form.text()[k]),
        pieces(form.text(), ':').len() <= 9,
        form.text().contains(':'),
{
    let end = form.end();
    let s = form.text();
    assert forall|i: int, j: int|
        0 <= i < form.head.len() && 0 <= j < form.head[i].len() implies is_literal_char(
        #[trigger] form.head[i][j],
    ) && form.head[i][j] != ':' by {
        assert(is_group(form.head[i]));
    }
    assert forall|i: int, j: int| 0 <= i < end.len() && 0 <= j < end[i].len() implies
        is_literal_char(#[trigger] end[i][j]) && end[i][j] != ':' by {
        if i < form.tail.len() {
            assert(is_group(form.tail[i]));
        } else {
            let v4 = form.v4->0;
            lemma_ipv4_of_dotted(v4);
            lemma_ipv4_chars(dotted(v4));
            assert(end[i] == dotted(v4));
            assert(dotted(v4)[j] == '.' || is_digit(dotted(v4)[j]));
        }
    }
    lemma_joined_literal(form.head);
    lemma_joined_literal(end);
    let front = joined(form.head, ':');
    let back = joined(end, ':');
    if form.gap {
        let gap = front.push(':').push(':') + back;
        assert(s =~= gap);
        lemma_pieces_around(front.push(':'), back, ':');
        assert(front.push(':').drop_last() =~= front);
        assert(pieces(front.push(':'), ':').len() == pieces(front, ':').len() + 1);
        assert(s[front.len() as int] == ':');
        assert forall|k: int| 0 <= k < s.len() implies is_literal_char(#[trigger] s[k]) by {
            if k < front.len() {
                assert(s[k] == front[k]);
            } else if k >= front.len() + 2 {
                assert(s[k] == back[k - front.len() - 2]);
            }
        }
    } else {
        assert(end.len() >= 7);
        if !s.contains(':') {
            lemma_single_piece(s, ':');
        }
        if s.len() == 0 {
            assert(pieces(s, ':').len() == 1);
        }
    }
}

/// A URL of an IPv6 address in brackets, with a port or without, and with a path and a query or
/// without, may be reached over plain HTTP exactly if the address is not public.
pub proof fn law_plain_http_to_ipv6(
    url: &str,
    r: bool,
    scheme: Seq<char>,
    form: Form,
    port: Seq<char>,
    path: Seq<char>,
)
    requires
        call_ensures(allows_plain_http, (url,), r),
        form.is_made_of_groups(),
        form.has_room(),
        url@ == scheme + (seq!['['] + form.text() + seq![']'] + port + path),
        url@.len() < 65535,
        ascii_lowercase(scheme) == "http://"@,
        port.len() > 0 ==> port[0] == ':',
        forall|i: int| 1 <= i < port.len() ==> '0' <= #[trigger] port[i] <= '9',
        path.len() > 0 ==> path[0] == '/' || path[0] == '?',
        forall|i: int|
            0 <= i < path.len() ==> {
                ||| 'a' <= #[trigger] path[i] <= 'z'
                ||| 'A' <= path[i] <= 'Z'
                ||| '-' <= path[i] <= ':'
                ||| path[i] == '_'
                ||| path[i] == '?'
                ||| path[i] == '='
                ||| path[i] == '&'
                ||| path[i] == '%'
                ||| path[i] == '+'
                ||| path[i] == '~'
            },
    ensures
        r <==> is_near_v6(form),
{
    let t = form.text();
    let host = seq!['['] + t + seq![']'];
    let name = host + port;
    let s = name + path;
    lemma_form_text(form);
    reveal_strlit("http://");
    assert(ascii_lowercase(scheme).len() == scheme.len());
    assert(url@.take(7) =~= scheme);
    assert(url@.skip(7) =~= s);
    assert forall|i: int| 0 <= i < name.len() implies name[i] != '@' && name[i] != '/' && name[i]
        != '?' && name[i] != '#' by {
        if 1 <= i <= t.len() {
            assert(name[i] == t[i - 1]);
            assert(is_literal_char(t[i - 1]));
        } else if i > t.len() + 2 {
            assert(name[i] == port[i - t.len() - 2]);
            assert('0' <= port[i - t.len() - 2] <= '9');
        }
    }
    let stops = seq!['/', '?', '#'];
    assert forall|i: int| 0 <= i < name.len() implies !stops.contains(#[trigger] name[i]) by {
        lemma_stops(name[i]);
    }
    if path.len() > 0 {
        lemma_stops(path[0]);
    }
    lemma_before(name, path, stops);
    assert(authority(s) == name);
    let none = Seq::<char>::empty();
    assert(none + name =~= name);
    lemma_behind(none, name, '@');
    assert(behind_last(authority(s), '@') == name);
    let bracket = seq![']'];
    assert(bracket[0] == ']');
    assert forall|i: int| 0 <= i < t.len() implies !bracket.contains(#[trigger] t[i]) by {
        assert(is_literal_char(t[i]));
    }
    lemma_inner(t, port);
    assert(url_host(url@) == host);
    assert forall|i: int| name.len() <= i < s.len() implies is_plain_path_char(#[trigger] s[i]) by {
        assert(s[i] == path[i - name.len()]);
    }
    assert(is_plain_url(url@));
    lemma_local_literal(form);
}

/// What stands within the brackets.
proof fn lemma_inner(t: Seq<char>, port: Seq<char>)
    requires
        t.len() > 0,
        forall|k: int| 0 <= k < t.len() ==> is_literal_char(#[trigger] t[k]),
        pieces(t, ':').len() <= 9,
        port.len() > 0 ==> port[0] == ':',
        forall|i: int| 1 <= i < port.len() ==> '0' <= #[trigger] port[i] <= '9',
    ensures
        is_plain_literal(seq!['['] + t + seq![']'] + port),
        before_any(seq!['['] + t + seq![']'] + port, seq![']']) == seq!['['] + t,
{
    let host = seq!['['] + t + seq![']'];
    let name = host + port;
    let bracket = seq![']'];
    let rest = bracket + port;
    assert(bracket[0] == ']');
    assert(bracket.contains(rest[0]));
    assert forall|i: int| 0 <= i < t.len() implies !bracket.contains(#[trigger] t[i]) by {
        assert(is_literal_char(t[i]));
    }
    lemma_before(t, rest, bracket);
    assert(name.skip(1) =~= t + rest);
    let opened = seq!['['] + t;
    assert forall|i: int| 0 <= i < opened.len() implies !bracket.contains(#[trigger] opened[i]) by {
        if i > 0 {
            assert(opened[i] == t[i - 1]);
            assert(is_literal_char(t[i - 1]));
        }
    }
    lemma_before(opened, rest, bracket);
    assert(name =~= opened + rest);
    assert(name.skip(t.len() as int + 2) =~= port);
    assert forall|i: int| 0 <= i < t.len() implies is_hex_digit(#[trigger] t[i]) || t[i] == ':'
        || t[i] == '.' by {
        assert(is_literal_char(t[i]));
    }
    if port.len() > 0 {
        let digits = port.skip(1);
        assert forall|i: int| 0 <= i < digits.len() implies is_digit(#[trigger] digits[i]) by {
            assert('0' <= port[i + 1] <= '9');
        }
    }
}

/// Which IPv6 addresses in brackets are local.
proof fn lemma_local_literal(form: Form)
    requires
        form.is_made_of_groups(),
        form.has_room(),
    ensures
        local_host(seq!['['] + form.text() + seq![']']) == is_near_v6(form),
{
    let t = form.text();
    lemma_form_text(form);
    assert(is_literal_char(t[0]));
    assert(is_literal_char(t[t.len() - 1]));
    law_brackets(t);
    lemma_ipv6_of_form(form);
    let k = choose|k: int| 0 <= k < t.len() && t[k] == ':';
    if ascii_lowercase(t) == "localhost"@ {
        lemma_localhost(t);
    }
    if ipv4(t) is Some {
        lemma_ipv4_chars(t);
        assert(t[k] == '.' || is_digit(t[k]));
    }
    let v6 = ipv6(t)->0;
    assert(v6[0] == form.group(0));
    assert(v6[7] == form.group(7));
    if v6_loopback(v6) {
        assert forall|i: int| 0 <= i < 7 implies #[trigger] form.group(i) == 0 by {
            assert(v6[i] == form.group(i));
        }
    }
    if form.group(7) == 1 && forall|i: int| 0 <= i < 7 ==> #[trigger] form.group(i) == 0 {
        assert forall|i: int| 0 <= i < 8 implies v6[i] == seq![0u16, 0, 0, 0, 0, 0, 0, 1][i] by {
            assert(v6[i] == form.group(i));
        }
        assert(v6 =~= seq![0u16, 0, 0, 0, 0, 0, 0, 1]);
    }
}

/// Which IPv6 addresses, in the brackets that a URL puts around them, are nearby.
pub proof fn law_local_literal(host: &str, r: bool, form: Form)
    requires
        call_ensures(is_local_host, (host,), r),
        form.is_made_of_groups(),
        form.has_room(),
        host@ == seq!['['] + form.text() + seq![']'],
    ensures
        r <==> is_near_v6(form),
{
    lemma_local_literal(form);
}

/// Which hosts are nearby, whatever their text: without the brackets, an IPv6 address that is not
/// public, an IPv4 address that is not public, or a text without a dot; never an empty one.
pub proof fn law_is_local_host(host: &str, inner: &str, v6: Option<[u16; 8]>, r: bool)
    requires
        call_ensures(trim, (host, Strip::Brackets), inner),
        call_ensures(parse_ipv6, (inner,), v6),
        call_ensures(is_local_host, (host,), r),
    ensures
        match v6 {
            Some(segments) => r <==> {
                ||| segments@[0] as int / 512 == 126
                ||| segments@[0] as int / 64 == 1018
                ||| segments@[7] == 1 && forall|i: int|
                    0 <= i < 7 ==> #[trigger] segments@[i] == 0
            },
            None => r <==> inner@.len() > 0 && is_near_name(inner@),
        },
{
    let h = inner@;
    if ascii_lowercase(h) == "localhost"@ {
        lemma_localhost(h);
        reveal_strlit("localhost");
        assert(ascii_lowercase(h).len() == h.len());
    }
    if ipv4(h) is Some {
        let v4 = ipv4(h)->0;
        lemma_ipv4_chars(h);
        lemma_dotted_of_ipv4(h);
        lemma_ranges(v4);
        assert forall|other: Ipv4| h == #[trigger] dotted(other) implies other == v4 by {
            lemma_ipv4_of_dotted(other);
        }
    } else {
        assert forall|other: Ipv4| h != #[trigger] dotted(other) by {
            lemma_ipv4_of_dotted(other);
        }
    }
    if let Some(segments) = v6 {
        lemma_ipv6_chars(h);
        let k = choose|k: int| 0 <= k < h.len() && h[k] == ':';
        if ipv4(h) is Some {
            assert(h[k] == '.' || is_digit(h[k]));
        }
        if segments@[7] == 1 && forall|i: int| 0 <= i < 7 ==> #[trigger] segments@[i] == 0 {
            assert(segments@ =~= seq![0u16, 0, 0, 0, 0, 0, 0, 1]);
        }
    }
}

/// A URL may be reached over plain HTTP exactly if it begins with `http://`, its host is nearby,
/// and it is a URL at all, as every ordinary one is.
pub proof fn law_plain_http_by_host(url: &str, host: &str, r: bool, local: bool)
    requires
        call_ensures(allows_plain_http, (url,), r),
        call_ensures(is_local_host, (host,), local),
        host@ == url_host(url@),
    ensures
        r ==> local && has_http_prefix(url@),
        has_http_prefix(url@) && is_plain_url(url@) ==> (r <==> local),
{
}

} // verus!
