//! IP addresses as text, and the ranges that are not reachable from the public network.

pub mod laws;

use crate::decimal::{digits_value, is_digit, leading_digits, parse_decimal};
use crate::text::{
    ascii_lowercase, chars_of, lemma_lower_char, lemma_piece_of, lemma_pieces_lowercase,
    lemma_pieces_not_empty, lemma_single_piece, pieces, split,
};
use vstd::prelude::*;

verus! {

/// An IPv4 address, its octets from left to right.
#[derive(Debug, Clone, Copy, PartialEq, Eq, Structural)]
pub struct Ipv4 {
    pub a: u8,
    pub b: u8,
    pub c: u8,
    pub d: u8,
}

/// Whether every character is a decimal digit.
pub open spec fn all_digits(s: Seq<char>) -> bool {
    forall|i: int| 0 <= i < s.len() ==> is_digit(#[trigger] s[i])
}

/// An octet: one to three digits, no zero in front of another digit, at most 255.
pub open spec fn octet(s: Seq<char>) -> Option<u8> {
    if 1 <= s.len() <= 3 && all_digits(s) && (s.len() > 1 ==> s.first() != '0') && digits_value(s)
        <= 255 {
        Some(digits_value(s) as u8)
    } else {
        None
    }
}

/// An IPv4 address: four octets with dots between them.
pub open spec fn ipv4(s: Seq<char>) -> Option<Ipv4> {
    let p = pieces(s, '.');
    if p.len() == 4 {
        match (octet(p[0]), octet(p[1]), octet(p[2]), octet(p[3])) {
            (Some(a), Some(b), Some(c), Some(d)) => Some(Ipv4 { a, b, c, d }),
            _ => None,
        }
    } else {
        None
    }
}

/// Whether `c` is a hexadecimal digit.
pub open spec fn is_hex_digit(c: char) -> bool {
    is_digit(c) || 'a' <= c <= 'f' || 'A' <= c <= 'F'
}

/// The number that a hexadecimal digit stands for.
pub open spec fn hex_digit_value(c: char) -> nat {
    if is_digit(c) {
        (c as u32 - '0' as u32) as nat
    } else if 'a' <= c <= 'f' {
        (c as u32 - 'a' as u32 + 10) as nat
    } else {
        (c as u32 - 'A' as u32 + 10) as nat
    }
}

/// The number that hexadecimal digits stand for.
pub open spec fn hex_value(s: Seq<char>) -> nat
    decreases s.len(),
{
    if s.len() == 0 {
        0
    } else {
        16 * hex_value(s.drop_last()) + hex_digit_value(s.last())
    }
}

/// Whether every character is a hexadecimal digit.
pub open spec fn all_hex_digits(s: Seq<char>) -> bool {
    forall|i: int| 0 <= i < s.len() ==> is_hex_digit(#[trigger] s[i])
}

/// A group of an IPv6 address: one to four hexadecimal digits.
pub open spec fn hex_group(s: Seq<char>) -> Option<u16> {
    if 1 <= s.len() <= 4 && all_hex_digits(s) {
        Some(hex_value(s) as u16)
    } else {
        None
    }
}

/// The two groups that an IPv4 address at the end of an IPv6 address fills.
pub open spec fn ipv4_groups(v4: Ipv4) -> Seq<u16> {
    seq![(v4.a * 256 + v4.b) as u16, (v4.c * 256 + v4.d) as u16]
}

/// Whether every piece is a group.
pub open spec fn all_groups(p: Seq<Seq<char>>) -> bool {
    forall|i: int| 0 <= i < p.len() ==> hex_group(#[trigger] p[i]) is Some
}

/// The groups that the pieces stand for.
pub open spec fn group_values(p: Seq<Seq<char>>) -> Seq<u16> {
    p.map_values(|g: Seq<char>| hex_group(g)->0)
}

/// Groups with colons between them, possibly none; where `v4_last` holds, an IPv4 address may
/// stand in place of the last.
pub open spec fn groups(s: Seq<char>, v4_last: bool) -> Option<Seq<u16>> {
    let p = pieces(s, ':');
    if s.len() == 0 {
        Some(Seq::empty())
    } else if all_groups(p) {
        Some(group_values(p))
    } else if v4_last && all_groups(p.drop_last()) && ipv4(p.last()) is Some {
        Some(group_values(p.drop_last()) + ipv4_groups(ipv4(p.last())->0))
    } else {
        None
    }
}

/// Whether `::` stands at position `i`.
pub open spec fn gap_at(s: Seq<char>, i: int) -> bool {
    0 <= i && i + 1 < s.len() && s[i] == ':' && s[i + 1] == ':'
}

/// Whether the first `::` stands at position `i`.
pub open spec fn first_gap_at(s: Seq<char>, i: int) -> bool {
    gap_at(s, i) && forall|j: int| 0 <= j < i ==> !#[trigger] gap_at(s, j)
}

/// An IPv6 address, as its eight groups: all of them written out, or one `::` in place of one or
/// more groups that are zero. Only the very end may be written as an IPv4 address.
pub open spec fn ipv6(s: Seq<char>) -> Option<Seq<u16>> {
    if exists|i: int| first_gap_at(s, i) {
        let i = choose|i: int| first_gap_at(s, i);
        match (groups(s.take(i), false), groups(s.skip(i + 2), true)) {
            (Some(head), Some(tail)) => if head.len() + tail.len() <= 7 {
                Some(head + Seq::new((8 - head.len() - tail.len()) as nat, |k: int| 0u16) + tail)
            } else {
                None
            },
            _ => None,
        }
    } else {
        match groups(s, true) {
            Some(all) => if all.len() == 8 {
                Some(all)
            } else {
                None
            },
            None => None,
        }
    }
}

/// `127.0.0.0/8`.
pub open spec fn v4_loopback(v4: Ipv4) -> bool {
    v4.a == 127
}

/// `10.0.0.0/8`, `172.16.0.0/12` and `192.168.0.0/16`.
pub open spec fn v4_private(v4: Ipv4) -> bool {
    v4.a == 10 || (v4.a == 172 && 16 <= v4.b <= 31) || (v4.a == 192 && v4.b == 168)
}

/// `169.254.0.0/16`.
pub open spec fn v4_link_local(v4: Ipv4) -> bool {
    v4.a == 169 && v4.b == 254
}

/// `::1`.
pub open spec fn v6_loopback(segments: Seq<u16>) -> bool {
    segments == seq![0u16, 0, 0, 0, 0, 0, 0, 1]
}

/// `fc00::/7`, the private range.
pub open spec fn v6_unique_local(segments: Seq<u16>) -> bool {
    0xfc00 <= segments[0] <= 0xfdff
}

/// `fe80::/10`.
pub open spec fn v6_link_local(segments: Seq<u16>) -> bool {
    0xfe80 <= segments[0] <= 0xfebf
}

/// An IPv4 address holds a dot, and digits and dots only.
pub proof fn lemma_ipv4_chars(s: Seq<char>)
    requires
        ipv4(s) is Some,
    ensures
        s.contains('.'),
        forall|k: int| 0 <= k < s.len() ==> s[k] == '.' || is_digit(#[trigger] s[k]),
{
    if !s.contains('.') {
        lemma_single_piece(s, '.');
    }
    assert forall|k: int| 0 <= k < s.len() implies s[k] == '.' || is_digit(#[trigger] s[k]) by {
        if s[k] != '.' {
            let i = lemma_piece_of(s, '.', k);
            let piece = pieces(s, '.')[i];
            assert(octet(piece) is Some);
            let m = choose|m: int| 0 <= m < piece.len() && piece[m] == s[k];
            assert(is_digit(piece[m]));
        }
    }
}

/// An IPv6 address holds a colon.
pub proof fn lemma_ipv6_chars(s: Seq<char>)
    requires
        ipv6(s) is Some,
    ensures
        s.contains(':'),
{
    if exists|i: int| first_gap_at(s, i) {
        let i = choose|i: int| first_gap_at(s, i);
        assert(s[i] == ':');
    } else if !s.contains(':') {
        lemma_single_piece(s, ':');
    }
}

/// Digits alone are the leading digits.
proof fn lemma_all_digits_lead(s: Seq<char>)
    requires
        all_digits(s),
    ensures
        leading_digits(s) == s,
    decreases s.len(),
{
    if s.len() > 0 {
        assert(all_digits(s.drop_last())) by {
            assert forall|i: int| 0 <= i < s.len() - 1 implies is_digit(
                #[trigger] s.drop_last()[i],
            ) by {
                assert(s.drop_last()[i] == s[i]);
            }
        }
        lemma_all_digits_lead(s.drop_last());
    }
}

fn parse_octet(s: &str) -> (r: Option<u8>)
    ensures
        r == octet(s@),
{
    let chars = chars_of(s);
    if chars.len() < 1 || chars.len() > 3 || (chars.len() > 1 && chars[0] == '0') {
        return None;
    }
    let mut i: usize = 0;
    while i < chars.len()
        invariant
            chars@ == s@,
            i <= chars.len(),
            forall|j: int| 0 <= j < i ==> is_digit(#[trigger] s@[j]),
        decreases chars.len() - i,
    {
        if chars[i] < '0' || chars[i] > '9' {
            assert(!is_digit(s@[i as int]));
            return None;
        }
        i += 1;
    }
    proof {
        lemma_all_digits_lead(s@);
        assert(is_digit(s@[0]));
    }
    match parse_decimal(s, 255) {
        Ok(n) => Some(n as u8),
        Err(_) => None,
    }
}

/// Reads an IPv4 address.
pub fn parse_ipv4(s: &str) -> (r: Option<Ipv4>)
    ensures
        r == ipv4(s@),
{
    let p = split(s, '.');
    let ghost spec_pieces = pieces(s@, '.');
    assert(p.len() == spec_pieces.len());
    assert(forall|i: int| 0 <= i < p.len() ==> spec_pieces[i] == (#[trigger] p[i])@);
    if p.len() != 4 {
        return None;
    }
    match (parse_octet(p[0]), parse_octet(p[1]), parse_octet(p[2]), parse_octet(p[3])) {
        (Some(a), Some(b), Some(c), Some(d)) => Some(Ipv4 { a, b, c, d }),
        _ => None,
    }
}

fn parse_hex_group(s: &str) -> (r: Option<u16>)
    ensures
        r == hex_group(s@),
{
    let chars = chars_of(s);
    if chars.len() < 1 || chars.len() > 4 {
        return None;
    }
    let mut value: u32 = 0;
    let mut i: usize = 0;
    assert(s@.take(0) == Seq::<char>::empty());
    while i < chars.len()
        invariant
            chars@ == s@,
            chars.len() <= 4,
            i <= chars.len(),
            forall|j: int| 0 <= j < i ==> is_hex_digit(#[trigger] s@[j]),
            value == hex_value(s@.take(i as int)),
            i == 0 ==> value == 0,
            i <= 1 ==> value < 0x10,
            i <= 2 ==> value < 0x100,
            i <= 3 ==> value < 0x1000,
            value < 0x10000,
        decreases chars.len() - i,
    {
        let c = chars[i];
        let d: u32 = if '0' <= c && c <= '9' {
            c as u32 - '0' as u32
        } else if 'a' <= c && c <= 'f' {
            c as u32 - 'a' as u32 + 10
        } else if 'A' <= c && c <= 'F' {
            c as u32 - 'A' as u32 + 10
        } else {
            assert(!is_hex_digit(s@[i as int]));
            return None;
        };
        assert(s@.take(i + 1).drop_last() == s@.take(i as int));
        value = 16 * value + d;
        i += 1;
    }
    assert(s@.take(i as int) == s@);
    Some(value as u16)
}

fn parse_groups(s: &str, v4_last: bool) -> (r: Option<Vec<u16>>)
    ensures
        match r {
            Some(v) => groups(s@, v4_last) == Some(v@),
            None => groups(s@, v4_last) is None,
        },
{
    let mut r: Vec<u16> = Vec::new();
    if s.is_empty() {
        assert(r@ == Seq::<u16>::empty());
        return Some(r);
    }
    let p = split(s, ':');
    let ghost spec_pieces = pieces(s@, ':');
    assert(p.len() == spec_pieces.len());
    assert(forall|j: int| 0 <= j < p.len() ==> (#[trigger] spec_pieces[j]) == p[j]@);
    let mut i: usize = 0;
    while i < p.len()
        invariant
            i <= p.len(),
            p.len() == spec_pieces.len(),
            s@.len() > 0,
            spec_pieces == pieces(s@, ':'),
            forall|j: int| 0 <= j < p.len() ==> (#[trigger] spec_pieces[j]) == p[j]@,
            all_groups(spec_pieces.take(i as int)),
            r@ == group_values(spec_pieces.take(i as int)),
        decreases p.len() - i,
    {
        let ghost done = spec_pieces.take(i as int);
        assert(spec_pieces[i as int] == p[i as int]@);
        match parse_hex_group(p[i]) {
            Some(g) => {
                r.push(g);
                assert(spec_pieces.take(i + 1) == done.push(p[i as int]@));
                assert(r@ == group_values(done.push(p[i as int]@)));
            },
            None => {
                assert(!all_groups(spec_pieces));
                if !v4_last {
                    return None;
                }
                if i + 1 < p.len() {
                    assert(spec_pieces.drop_last()[i as int] == p[i as int]@);
                    return None;
                }
                assert(spec_pieces.drop_last() == done);
                match parse_ipv4(p[i]) {
                    Some(v4) => {
                        r.push(v4.a as u16 * 256 + v4.b as u16);
                        r.push(v4.c as u16 * 256 + v4.d as u16);
                        assert(r@ == group_values(done) + ipv4_groups(v4));
                        return Some(r);
                    },
                    None => {
                        return None;
                    },
                }
            },
        }
        i += 1;
    }
    assert(spec_pieces.take(i as int) == spec_pieces);
    Some(r)
}

/// Eight groups, in an array.
fn eight(v: &Vec<u16>) -> (r: [u16; 8])
    requires
        v.len() == 8,
    ensures
        r@ == v@,
{
    let r: [u16; 8] = [v[0], v[1], v[2], v[3], v[4], v[5], v[6], v[7]];
    assert(r@ =~= v@);
    r
}

/// Reads an IPv6 address into its eight groups.
pub fn parse_ipv6(s: &str) -> (r: Option<[u16; 8]>)
    ensures
        match r {
            Some(v) => ipv6(s@) == Some(v@),
            None => ipv6(s@) is None,
        },
{
    let chars = chars_of(s);
    let mut i: usize = 0;
    while chars.len() - i > 1 && !(chars[i] == ':' && chars[i + 1] == ':')
        invariant
            chars@ == s@,
            i <= chars.len(),
            forall|j: int| 0 <= j < i ==> !#[trigger] gap_at(s@, j),
        decreases chars.len() - i,
    {
        assert(!gap_at(s@, i as int));
        i += 1;
    }
    if chars.len() - i > 1 {
        assert(first_gap_at(s@, i as int));
        assert forall|k: int| first_gap_at(s@, k) implies k == i by {
            if k < i {
                assert(gap_at(s@, k));
            } else if k > i {
                assert(gap_at(s@, i as int));
            }
        }
        let head = parse_groups(s.substring_char(0, i), false);
        let tail = parse_groups(s.substring_char(i + 2, chars.len()), true);
        assert(s@.subrange(0, i as int) == s@.take(i as int));
        assert(s@.subrange(i + 2, s@.len() as int) == s@.skip(i + 2));
        match (head, tail) {
            (Some(head), Some(tail)) => {
                if head.len() > 7 || tail.len() > 7 - head.len() {
                    return None;
                }
                let zeros: usize = 8 - head.len() - tail.len();
                let ghost front = head@;
                let mut r: Vec<u16> = head;
                let mut k: usize = 0;
                while k < zeros
                    invariant
                        k <= zeros,
                        r@ == front + Seq::new(k as nat, |j: int| 0u16),
                    decreases zeros - k,
                {
                    r.push(0);
                    k += 1;
                    assert(Seq::new(k as nat, |j: int| 0u16) == Seq::new(
                        (k - 1) as nat,
                        |j: int| 0u16,
                    ).push(0u16));
                }
                let ghost filled = r@;
                let mut k: usize = 0;
                while k < tail.len()
                    invariant
                        k <= tail.len(),
                        r@ == filled + tail@.take(k as int),
                    decreases tail.len() - k,
                {
                    r.push(tail[k]);
                    k += 1;
                    assert(tail@.take(k as int) == tail@.take(k - 1).push(tail@[k - 1]));
                }
                assert(tail@.take(k as int) == tail@);
                Some(eight(&r))
            },
            _ => None,
        }
    } else {
        assert forall|k: int| !first_gap_at(s@, k) by {
            if first_gap_at(s@, k) {
                assert(gap_at(s@, k));
            }
        }
        match parse_groups(s, true) {
            Some(all) => if all.len() == 8 {
                Some(eight(&all))
            } else {
                None
            },
            None => None,
        }
    }
}

impl Ipv4 {
    /// Whether the address is in `127.0.0.0/8`.
    pub fn is_loopback(&self) -> (r: bool)
        ensures
            r == v4_loopback(*self),
    {
        self.a == 127
    }

    /// Whether the address is in `10.0.0.0/8`, `172.16.0.0/12` or `192.168.0.0/16`.
    pub fn is_private(&self) -> (r: bool)
        ensures
            r == v4_private(*self),
    {
        self.a == 10 || (self.a == 172 && self.b >= 16 && self.b <= 31) || (self.a == 192 && self.b
            == 168)
    }

    /// Whether the address is in `169.254.0.0/16`.
    pub fn is_link_local(&self) -> (r: bool)
        ensures
            r == v4_link_local(*self),
    {
        self.a == 169 && self.b == 254
    }
}

/// Whether the address is `::1`.
pub fn ipv6_is_loopback(segments: &[u16; 8]) -> (r: bool)
    ensures
        r == v6_loopback(segments@),
{
    let r = segments[0] == 0 && segments[1] == 0 && segments[2] == 0 && segments[3] == 0
        && segments[4] == 0 && segments[5] == 0 && segments[6] == 0 && segments[7] == 1;
    assert(r ==> segments@ =~= seq![0u16, 0, 0, 0, 0, 0, 0, 1]);
    r
}

/// Whether the address is in `fc00::/7`.
pub fn ipv6_is_unique_local(segments: &[u16; 8]) -> (r: bool)
    ensures
        r == v6_unique_local(segments@),
{
    let first: u16 = segments[0];
    assert((first & 0xfe00 == 0xfc00) == (0xfc00 <= first && first <= 0xfdff)) by (bit_vector);
    (first & 0xfe00) == 0xfc00
}

/// Whether the address is in `fe80::/10`.
pub fn ipv6_is_link_local(segments: &[u16; 8]) -> (r: bool)
    ensures
        r == v6_link_local(segments@),
{
    let first: u16 = segments[0];
    assert((first & 0xffc0 == 0xfe80) == (0xfe80 <= first && first <= 0xfebf)) by (bit_vector);
    (first & 0xffc0) == 0xfe80
}

proof fn lemma_octet_lowercase(s: Seq<char>)
    ensures
        octet(ascii_lowercase(s)) == octet(s),
{
    let low = ascii_lowercase(s);
    if all_digits(s) {
        assert(low =~= s);
    } else {
        let i = choose|i: int| 0 <= i < s.len() && !is_digit(#[trigger] s[i]);
        assert(!is_digit(low[i]));
    }
}

/// Letter case makes no difference to an IPv4 address.
pub proof fn lemma_ipv4_lowercase(s: Seq<char>)
    ensures
        ipv4(ascii_lowercase(s)) == ipv4(s),
{
    let p = pieces(s, '.');
    lemma_pieces_lowercase(s, '.');
    if p.len() == 4 {
        lemma_octet_lowercase(p[0]);
        lemma_octet_lowercase(p[1]);
        lemma_octet_lowercase(p[2]);
        lemma_octet_lowercase(p[3]);
    }
}

proof fn lemma_hex_value_lowercase(s: Seq<char>)
    requires
        all_hex_digits(s),
    ensures
        hex_value(ascii_lowercase(s)) == hex_value(s),
    decreases s.len(),
{
    if s.len() > 0 {
        let front = s.drop_last();
        assert forall|i: int| 0 <= i < front.len() implies is_hex_digit(#[trigger] front[i]) by {
            assert(front[i] == s[i]);
        }
        lemma_hex_value_lowercase(front);
        assert(ascii_lowercase(s).drop_last() == ascii_lowercase(front));
        assert(is_hex_digit(s[s.len() - 1]));
    }
}

proof fn lemma_hex_group_lowercase(s: Seq<char>)
    ensures
        hex_group(ascii_lowercase(s)) == hex_group(s),
{
    let low = ascii_lowercase(s);
    if all_hex_digits(s) {
        assert forall|i: int| 0 <= i < low.len() implies is_hex_digit(#[trigger] low[i]) by {
            assert(is_hex_digit(s[i]));
        }
        lemma_hex_value_lowercase(s);
    } else {
        let i = choose|i: int| 0 <= i < s.len() && !is_hex_digit(#[trigger] s[i]);
        assert(!is_hex_digit(low[i]));
    }
}

proof fn lemma_group_values_lowercase(p: Seq<Seq<char>>)
    ensures
        all_groups(p.map_values(|g: Seq<char>| ascii_lowercase(g))) == all_groups(p),
        all_groups(p) ==> group_values(p.map_values(|g: Seq<char>| ascii_lowercase(g)))
            == group_values(p),
{
    let low = p.map_values(|g: Seq<char>| ascii_lowercase(g));
    assert forall|i: int| 0 <= i < p.len() implies hex_group(#[trigger] low[i]) == hex_group(
        p[i],
    ) by {
        lemma_hex_group_lowercase(p[i]);
    }
    if all_groups(low) {
        assert forall|i: int| 0 <= i < p.len() implies hex_group(#[trigger] p[i]) is Some by {
            assert(hex_group(low[i]) is Some);
        }
    }
    assert(group_values(low) =~= group_values(p));
}

proof fn lemma_groups_lowercase(s: Seq<char>, v4_last: bool)
    ensures
        groups(ascii_lowercase(s), v4_last) == groups(s, v4_last),
{
    let p = pieces(s, ':');
    let low = p.map_values(|g: Seq<char>| ascii_lowercase(g));
    lemma_pieces_lowercase(s, ':');
    lemma_group_values_lowercase(p);
    lemma_group_values_lowercase(p.drop_last());
    lemma_pieces_not_empty(s, ':');
    assert(low.drop_last() == p.drop_last().map_values(|g: Seq<char>| ascii_lowercase(g)));
    lemma_ipv4_lowercase(p.last());
}

/// Letter case makes no difference to an IPv6 address.
pub proof fn lemma_ipv6_lowercase(s: Seq<char>)
    ensures
        ipv6(ascii_lowercase(s)) == ipv6(s),
{
    let low = ascii_lowercase(s);
    assert forall|i: int| #[trigger] gap_at(low, i) == gap_at(s, i) by {
        if 0 <= i && i + 1 < s.len() {
            lemma_lower_char(s[i], ':');
            lemma_lower_char(s[i + 1], ':');
        }
    }
    assert forall|i: int| #[trigger] first_gap_at(low, i) == first_gap_at(s, i) by {
        if first_gap_at(low, i) {
            assert forall|j: int| 0 <= j < i implies !#[trigger] gap_at(s, j) by {
                assert(!gap_at(low, j));
            }
        }
    }
    if exists|i: int| first_gap_at(s, i) {
        let i = choose|i: int| first_gap_at(s, i);
        let k = choose|k: int| first_gap_at(low, k);
        assert(first_gap_at(low, i));
        assert(first_gap_at(s, k));
        assert(i == k) by {
            if i < k {
                assert(!gap_at(s, i));
            } else if k < i {
                assert(!gap_at(s, k));
            }
        }
        lemma_groups_lowercase(s.take(i), false);
        lemma_groups_lowercase(s.skip(i + 2), true);
        assert(low.take(i) == ascii_lowercase(s.take(i)));
        assert(low.skip(i + 2) == ascii_lowercase(s.skip(i + 2)));
    } else {
        assert forall|i: int| !first_gap_at(low, i) by {
            assert(!first_gap_at(s, i));
        }
        lemma_groups_lowercase(s, true);
    }
}

} // verus!
