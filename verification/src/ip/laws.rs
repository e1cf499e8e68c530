//! What the operations on IP addresses do, call by call.

use crate::decimal::{
    decimal, is_digit, lemma_decimal_digits, lemma_digits_are_decimal,
    lemma_no_leading_zero,
};
use crate::ip::{
    all_groups, first_gap_at, gap_at, group_values, groups, hex_group, hex_value, ipv4, ipv4_groups,
    ipv6, ipv6_is_link_local, ipv6_is_loopback, ipv6_is_unique_local, is_hex_digit,
    lemma_ipv4_chars, octet, parse_ipv4, parse_ipv6, Ipv4,
};
use crate::text::laws::lemma_joined_pieces;
use crate::text::{joined, law_pieces_of_joined, lemma_pieces_not_empty, pieces};
use vstd::prelude::*;

verus! {

/// An IPv4 address as a number of 32 bits.
pub open spec fn number(v4: Ipv4) -> int {
    v4.a * 0x100_0000 + v4.b * 0x1_0000 + v4.c * 0x100 + v4.d
}

/// Loopback is the block of addresses whose first 8 bits are those of 127.
pub proof fn law_loopback(v4: Ipv4, r: bool)
    requires
        call_ensures(Ipv4::is_loopback, (&v4,), r),
    ensures
        r <==> number(v4) / 0x100_0000 == 127,
{
}

/// Private are the addresses whose first 8 bits are those of 10, whose first 12 bits are those of
/// 172.16, or whose first 16 bits are those of 192.168, whatever the remaining bits.
pub proof fn law_private(v4: Ipv4, r: bool)
    requires
        call_ensures(Ipv4::is_private, (&v4,), r),
    ensures
        r <==> number(v4) / 0x100_0000 == 10 || number(v4) / 0x10_0000 == 172 * 16 + 1 || number(
            v4,
        ) / 0x1_0000 == 192 * 256 + 168,
{
    assert(number(v4) / 0x10_0000 == v4.a * 16 + v4.b as int / 16);
    assert(number(v4) / 0x1_0000 == v4.a * 256 + v4.b);
}

/// Link-local are the addresses whose first 16 bits are those of 169.254.
pub proof fn law_link_local(v4: Ipv4, r: bool)
    requires
        call_ensures(Ipv4::is_link_local, (&v4,), r),
    ensures
        r <==> number(v4) / 0x1_0000 == 169 * 256 + 254,
{
    assert(number(v4) / 0x1_0000 == v4.a * 256 + v4.b);
}

/// Of the IPv6 addresses, one is loopback: all bits zero but the last.
pub proof fn law_v6_loopback(segments: [u16; 8], r: bool)
    requires
        call_ensures(ipv6_is_loopback, (&segments,), r),
    ensures
        r <==> segments@[7] == 1 && forall|i: int| 0 <= i < 7 ==> #[trigger] segments@[i] == 0,
{
    if segments@[7] == 1 && forall|i: int| 0 <= i < 7 ==> #[trigger] segments@[i] == 0 {
        assert(segments@ =~= seq![0u16, 0, 0, 0, 0, 0, 0, 1]);
    }
}

/// Unique local are the addresses whose first 7 bits are those of fc00.
pub proof fn law_v6_unique_local(segments: [u16; 8], r: bool)
    requires
        call_ensures(ipv6_is_unique_local, (&segments,), r),
    ensures
        r <==> segments@[0] as int / 512 == 0xfc00int / 512,
{
}

/// Link-local are the addresses whose first 10 bits are those of fe80.
pub proof fn law_v6_link_local(segments: [u16; 8], r: bool)
    requires
        call_ensures(ipv6_is_link_local, (&segments,), r),
    ensures
        r <==> segments@[0] as int / 64 == 0xfe80int / 64,
{
}

/// The octets of an IPv4 address in decimal, as texts.
pub open spec fn octets(v4: Ipv4) -> Seq<Seq<char>> {
    seq![
        decimal(v4.a as nat),
        decimal(v4.b as nat),
        decimal(v4.c as nat),
        decimal(v4.d as nat),
    ]
}

/// An IPv4 address as it is written: four numbers in decimal with dots between them.
pub open spec fn dotted(v4: Ipv4) -> Seq<char> {
    joined(octets(v4), '.')
}

proof fn lemma_octet_of_decimal(n: u8)
    ensures
        octet(decimal(n as nat)) == Some(n),
        !decimal(n as nat).contains('.'),
{
    let s = decimal(n as nat);
    lemma_decimal_digits(n as nat);
    lemma_no_leading_zero(n as nat);
    lemma_no_leading_zero((n / 10) as nat);
    lemma_no_leading_zero((n / 100) as nat);
    assert(s.len() <= 3) by {
        if n >= 100 {
            assert(s.len() == decimal((n / 10) as nat).len() + 1);
            assert(decimal((n / 10) as nat).len() == decimal((n / 10 / 10) as nat).len() + 1);
        } else if n >= 10 {
            assert(s.len() == decimal((n / 10) as nat).len() + 1);
        }
    }
    if s.contains('.') {
        let k = choose|k: int| 0 <= k < s.len() && s[k] == '.';
        assert(is_digit(s[k]));
    }
}

proof fn lemma_decimal_of_octet(s: Seq<char>)
    requires
        octet(s) is Some,
    ensures
        s == decimal(octet(s)->0 as nat),
{
    lemma_digits_are_decimal(s);
}

pub proof fn lemma_ipv4_of_dotted(v4: Ipv4)
    ensures
        ipv4(dotted(v4)) == Some(v4),
{
    lemma_octet_of_decimal(v4.a);
    lemma_octet_of_decimal(v4.b);
    lemma_octet_of_decimal(v4.c);
    lemma_octet_of_decimal(v4.d);
    let parts = octets(v4);
    assert forall|i: int| 0 <= i < parts.len() implies !#[trigger] parts[i].contains('.') by {
        assert(i == 0 || i == 1 || i == 2 || i == 3);
    }
    law_pieces_of_joined(parts, '.');
}

pub proof fn lemma_dotted_of_ipv4(s: Seq<char>)
    requires
        ipv4(s) is Some,
    ensures
        s == dotted(ipv4(s)->0),
{
    let p = pieces(s, '.');
    lemma_decimal_of_octet(p[0]);
    lemma_decimal_of_octet(p[1]);
    lemma_decimal_of_octet(p[2]);
    lemma_decimal_of_octet(p[3]);
    assert(p =~= octets(ipv4(s)->0));
    lemma_joined_pieces(s, '.');
}

/// A text reads as an IPv4 address exactly if it is that address as it is written.
pub proof fn law_parse_ipv4(s: &str, r: Option<Ipv4>, v4: Ipv4)
    requires
        call_ensures(parse_ipv4, (s,), r),
    ensures
        r == Some(v4) <==> s@ == dotted(v4),
{
    lemma_ipv4_of_dotted(v4);
    if r == Some(v4) {
        lemma_dotted_of_ipv4(s@);
    }
}

/// Hexadecimal digits are positional, in either case.
pub proof fn law_hex_positional(front: Seq<char>, last: char)
    ensures
        hex_value(Seq::<char>::empty()) == 0,
        '0' <= last <= '9' ==> hex_value(front.push(last)) == 16 * hex_value(front) + (last as int
            - 48),
        'a' <= last <= 'f' ==> hex_value(front.push(last)) == 16 * hex_value(front) + (last as int
            - 87),
        'A' <= last <= 'F' ==> hex_value(front.push(last)) == 16 * hex_value(front) + (last as int
            - 55),
{
    assert(front.push(last).drop_last() =~= front);
}

/// How an IPv6 address may be written: groups of one to four hexadecimal digits, with `::` in place
/// of a gap of zeros or without, and an IPv4 address in place of the last two groups or not.
/// Without a gap, all groups are in the tail.
pub struct Form {
    pub head: Seq<Seq<char>>,
    pub gap: bool,
    pub tail: Seq<Seq<char>>,
    pub v4: Option<Ipv4>,
}

/// Whether a text is one to four hexadecimal digits.
pub open spec fn is_group(s: Seq<char>) -> bool {
    1 <= s.len() <= 4 && forall|i: int|
        0 <= i < s.len() ==> {
            ||| '0' <= #[trigger] s[i] <= '9'
            ||| 'a' <= s[i] <= 'f'
            ||| 'A' <= s[i] <= 'F'
        }
}

impl Form {
    /// How many groups are written.
    pub open spec fn written(self) -> nat {
        self.head.len() + self.tail.len() + (if self.v4 is Some {
            2nat
        } else {
            0
        })
    }

    /// Whether the groups are groups.
    pub open spec fn is_made_of_groups(self) -> bool {
        &&& !self.gap ==> self.head.len() == 0
        &&& forall|i: int| 0 <= i < self.head.len() ==> is_group(#[trigger] self.head[i])
        &&& forall|i: int| 0 <= i < self.tail.len() ==> is_group(#[trigger] self.tail[i])
    }

    /// Whether there are as many groups as there should be: eight, or with a gap seven at most.
    pub open spec fn has_room(self) -> bool {
        if self.gap {
            self.written() <= 7
        } else {
            self.written() == 8
        }
    }

    /// What stands behind the gap.
    pub open spec fn end(self) -> Seq<Seq<char>> {
        match self.v4 {
            Some(v4) => self.tail.push(dotted(v4)),
            None => self.tail,
        }
    }

    /// The text.
    pub open spec fn text(self) -> Seq<char> {
        if self.gap {
            joined(self.head, ':') + seq![':', ':'] + joined(self.end(), ':')
        } else {
            joined(self.end(), ':')
        }
    }

    /// The group at a place from the left: those of the head, zeros, those of the tail, and the
    /// four octets of the IPv4 address, two in a group.
    pub open spec fn group(self, i: int) -> int {
        let tail_at = 8 - self.tail.len() - (if self.v4 is Some {
            2int
        } else {
            0
        });
        if i < self.head.len() {
            hex_value(self.head[i]) as int
        } else if i < tail_at {
            0
        } else if i < tail_at + self.tail.len() {
            hex_value(self.tail[i - tail_at]) as int
        } else if i == 6 {
            self.v4->0.a * 256 + self.v4->0.b
        } else {
            self.v4->0.c * 256 + self.v4->0.d
        }
    }
}

pub proof fn lemma_group(s: Seq<char>)
    ensures
        is_group(s) <==> hex_group(s) is Some,
        is_group(s) ==> hex_group(s)->0 == hex_value(s),
        is_group(s) ==> !s.contains(':') && !s.contains('.') && hex_value(s) < 0x10000,
{
    if is_group(s) {
        assert forall|i: int| 0 <= i < s.len() implies is_hex_digit(#[trigger] s[i]) by {}
        lemma_hex_bound(s);
        if s.contains(':') {
            let k = choose|k: int| 0 <= k < s.len() && s[k] == ':';
            assert(is_hex_digit(s[k]));
        }
        if s.contains('.') {
            let k = choose|k: int| 0 <= k < s.len() && s[k] == '.';
            assert(is_hex_digit(s[k]));
        }
    }
    if hex_group(s) is Some {
        assert forall|i: int| 0 <= i < s.len() implies {
            ||| '0' <= #[trigger] s[i] <= '9'
            ||| 'a' <= s[i] <= 'f'
            ||| 'A' <= s[i] <= 'F'
        } by {
            assert(is_hex_digit(s[i]));
        }
    }
}

proof fn lemma_hex_bound(s: Seq<char>)
    requires
        s.len() <= 4,
        forall|i: int| 0 <= i < s.len() ==> is_hex_digit(#[trigger] s[i]),
    ensures
        s.len() == 0 ==> hex_value(s) == 0,
        s.len() == 1 ==> hex_value(s) < 0x10,
        s.len() == 2 ==> hex_value(s) < 0x100,
        s.len() == 3 ==> hex_value(s) < 0x1000,
        s.len() == 4 ==> hex_value(s) < 0x10000,
    decreases s.len(),
{
    if s.len() > 0 {
        let front = s.drop_last();
        assert forall|i: int| 0 <= i < front.len() implies is_hex_digit(#[trigger] front[i]) by {
            assert(front[i] == s[i]);
        }
        lemma_hex_bound(front);
        assert(is_hex_digit(s[s.len() - 1]));
    }
}

/// Texts that are not empty and hold no colon, joined with colons: no two colons stand together,
/// and none at either end.
proof fn lemma_joined_without_gap(parts: Seq<Seq<char>>)
    requires
        forall|i: int|
            0 <= i < parts.len() ==> (#[trigger] parts[i]).len() > 0 && !parts[i].contains(':'),
    ensures
        ({
            let s = joined(parts, ':');
            &&& parts.len() > 0 ==> s.len() > 0 && s.first() != ':' && s.last() != ':'
            &&& parts.len() == 0 ==> s.len() == 0
            &&& forall|i: int| !#[trigger] gap_at(s, i)
        }),
    decreases parts.len(),
{
    let s = joined(parts, ':');
    if parts.len() > 0 {
        let last = parts.last();
        assert(last == parts[parts.len() - 1]);
        assert forall|i: int| 0 <= i < last.len() implies #[trigger] last[i] != ':' by {
            if last[i] == ':' {
                assert(last.contains(':'));
            }
        }
        if parts.len() > 1 {
            let front = parts.drop_last();
            assert forall|i: int| 0 <= i < front.len() implies (#[trigger] front[i]).len() > 0
                && !front[i].contains(':') by {
                assert(front[i] == parts[i]);
            }
            lemma_joined_without_gap(front);
            let before = joined(front, ':');
            let k = before.len() as int;
            assert(s == before.push(':') + last);
            assert forall|i: int| !#[trigger] gap_at(s, i) by {
                if gap_at(s, i) {
                    if i + 1 < k {
                        assert(gap_at(before, i));
                    } else if i + 1 == k {
                        assert(s[i] == before.last());
                    } else if i == k {
                        assert(s[i + 1] == last[0]);
                    } else {
                        assert(s[i] == last[i - k - 1]);
                    }
                }
            }
            assert(s.last() == last[last.len() - 1]);
        } else {
            assert(s == last);
            assert forall|i: int| !#[trigger] gap_at(s, i) by {
                if gap_at(s, i) {
                    assert(last[i] == ':');
                }
            }
        }
    }
}

pub proof fn lemma_dotted_chars(v4: Ipv4)
    ensures
        dotted(v4).len() > 0,
        dotted(v4).contains('.'),
        !dotted(v4).contains(':'),
{
    let s = dotted(v4);
    lemma_ipv4_of_dotted(v4);
    lemma_ipv4_chars(s);
    if s.contains(':') {
        let k = choose|k: int| 0 <= k < s.len() && s[k] == ':';
        assert(s[k] == '.' || is_digit(s[k]));
    }
}

/// What groups joined with colons read as.
proof fn lemma_groups_of_joined(parts: Seq<Seq<char>>, v4: Option<Ipv4>, v4_last: bool)
    requires
        forall|i: int| 0 <= i < parts.len() ==> is_group(#[trigger] parts[i]),
        v4 is Some ==> v4_last,
    ensures
        groups(
            joined(
                match v4 {
                    Some(v4) => parts.push(dotted(v4)),
                    None => parts,
                },
                ':',
            ),
            v4_last,
        ) == Some(
            group_values(parts) + (match v4 {
                Some(v4) => ipv4_groups(v4),
                None => Seq::empty(),
            }),
        ),
        forall|i: int| 0 <= i < parts.len() ==> #[trigger] group_values(parts)[i] == hex_value(
            parts[i],
        ),
{
    let all = match v4 {
        Some(v4) => parts.push(dotted(v4)),
        None => parts,
    };
    let s = joined(all, ':');
    assert forall|i: int| 0 <= i < parts.len() implies hex_group(#[trigger] parts[i]) is Some by {
        lemma_group(parts[i]);
    }
    assert forall|i: int| 0 <= i < parts.len() implies #[trigger] group_values(parts)[i]
        == hex_value(parts[i]) by {
        lemma_group(parts[i]);
    }
    if v4 is Some {
        lemma_dotted_chars(v4->0);
        lemma_ipv4_of_dotted(v4->0);
    }
    assert forall|i: int| 0 <= i < all.len() implies (#[trigger] all[i]).len() > 0
        && !all[i].contains(':') by {
        if i < parts.len() {
            lemma_group(parts[i]);
            assert(all[i] == parts[i]);
        }
    }
    lemma_joined_without_gap(all);
    if all.len() == 0 {
        assert(group_values(parts) + Seq::<u16>::empty() =~= Seq::<u16>::empty());
    } else {
        law_pieces_of_joined(all, ':');
        if v4 is Some {
            let last = all.last();
            assert(all[all.len() - 1] == dotted(v4->0));
            lemma_group(last);
            assert(!all_groups(all));
            assert(all.drop_last() =~= parts);
        } else {
            assert(group_values(parts) + Seq::<u16>::empty() =~= group_values(parts));
        }
    }
}

/// The groups that a form stands for.
#[verifier::spinoff_prover]
#[verifier::rlimit(60)]
pub proof fn lemma_ipv6_of_form(form: Form)
    requires
        form.is_made_of_groups(),
    ensures
        ipv6(form.text()) is Some <==> form.has_room(),
        form.has_room() ==> ipv6(form.text())->0.len() == 8 && forall|i: int|
            0 <= i < 8 ==> #[trigger] ipv6(form.text())->0[i] == form.group(i),
{
    let s = form.text();
    let end = form.end();
    let v4_seq = match form.v4 {
        Some(v4) => ipv4_groups(v4),
        None => Seq::empty(),
    };
    lemma_groups_of_joined(form.head, None, false);
    lemma_groups_of_joined(form.tail, form.v4, true);
    if form.v4 is Some {
        lemma_dotted_chars(form.v4->0);
    }
    assert forall|i: int| 0 <= i < end.len() implies (#[trigger] end[i]).len() > 0
        && !end[i].contains(':') by {
        if i < form.tail.len() {
            lemma_group(form.tail[i]);
            assert(end[i] == form.tail[i]);
        }
    }
    assert forall|i: int| 0 <= i < form.head.len() implies (#[trigger] form.head[i]).len() > 0
        && !form.head[i].contains(':') by {
        lemma_group(form.head[i]);
    }
    lemma_joined_without_gap(end);
    lemma_joined_without_gap(form.head);
    let heads = group_values(form.head) + Seq::<u16>::empty();
    let tails = group_values(form.tail) + v4_seq;
    assert(heads =~= group_values(form.head));
    if form.gap {
        let front = joined(form.head, ':');
        let back = joined(end, ':');
        let k = front.len() as int;
        assert(s[k] == ':' && s[k + 1] == ':');
        assert(gap_at(s, k));
        assert forall|j: int| 0 <= j < k implies !#[trigger] gap_at(s, j) by {
            if gap_at(s, j) {
                if j + 1 < k {
                    assert(gap_at(front, j));
                } else {
                    assert(s[j] == front.last());
                }
            }
        }
        assert(first_gap_at(s, k));
        let i = choose|i: int| first_gap_at(s, i);
        assert(i == k) by {
            if i < k {
                assert(!gap_at(s, i));
            } else if i > k {
                assert(!gap_at(s, k));
            }
        }
        assert(s.take(k) =~= front);
        assert(s.skip(k + 2) =~= back);
        if form.has_room() {
            let zeros = Seq::new((8 - heads.len() - tails.len()) as nat, |j: int| 0u16);
            let all = heads + zeros + tails;
            assert(ipv6(s) == Some(all));
            assert forall|j: int| 0 <= j < 8 implies #[trigger] all[j] == form.group(j) by {
                lemma_group_at(form, all, j);
            }
        }
    } else {
        assert forall|i: int| !first_gap_at(s, i) by {
            assert(!gap_at(s, i));
        }
        assert(ipv6(s) == (if tails.len() == 8 {
            Some(tails)
        } else {
            None
        }));
        if form.has_room() {
            assert forall|j: int| 0 <= j < 8 implies #[trigger] tails[j] == form.group(j) by {
                assert(heads + Seq::new(0, |j: int| 0u16) + tails =~= tails);
                lemma_group_at(form, tails, j);
            }
        }
    }
}

proof fn lemma_group_at(form: Form, all: Seq<u16>, j: int)
    requires
        form.is_made_of_groups(),
        form.has_room(),
        0 <= j < 8,
        all == group_values(form.head) + Seq::new((8 - form.written()) as nat, |j: int| 0u16) + (
        group_values(form.tail) + (match form.v4 {
            Some(v4) => ipv4_groups(v4),
            None => Seq::empty(),
        })),
    ensures
        all[j] == form.group(j),
{
    if 0 <= j < form.head.len() {
        lemma_group(form.head[j]);
    }
    let k = j - (8 - form.tail.len() - (if form.v4 is Some {
        2int
    } else {
        0
    }));
    if 0 <= k < form.tail.len() {
        lemma_group(form.tail[k]);
    }
}

/// Every way to write an IPv6 address is read, as the groups that it stands for; one with too many
/// groups, or too few and no gap, is not.
pub proof fn law_parse_ipv6(s: &str, r: Option<[u16; 8]>, form: Form)
    requires
        call_ensures(parse_ipv6, (s,), r),
        form.is_made_of_groups(),
        s@ == form.text(),
    ensures
        r is Some <==> form.has_room(),
        r matches Some(segments) ==> forall|i: int|
            0 <= i < 8 ==> #[trigger] segments@[i] == form.group(i),
{
    lemma_ipv6_of_form(form);
}

proof fn lemma_form_of_groups(s: Seq<char>, v4_last: bool) -> (r: (Seq<Seq<char>>, Option<Ipv4>))
    requires
        groups(s, v4_last) is Some,
    ensures
        forall|i: int| 0 <= i < r.0.len() ==> is_group(#[trigger] r.0[i]),
        r.1 is Some ==> v4_last,
        s == joined(
            match r.1 {
                Some(v4) => r.0.push(dotted(v4)),
                None => r.0,
            },
            ':',
        ),
        groups(s, v4_last)->0.len() == r.0.len() + (if r.1 is Some {
            2int
        } else {
            0
        }),
{
    let p = pieces(s, ':');
    lemma_pieces_not_empty(s, ':');
    lemma_joined_pieces(s, ':');
    if s.len() == 0 {
        assert(s =~= joined(Seq::<Seq<char>>::empty(), ':'));
        (Seq::empty(), None)
    } else if all_groups(p) {
        assert forall|i: int| 0 <= i < p.len() implies is_group(#[trigger] p[i]) by {
            lemma_group(p[i]);
        }
        (p, None)
    } else {
        let front = p.drop_last();
        assert forall|i: int| 0 <= i < front.len() implies is_group(#[trigger] front[i]) by {
            lemma_group(front[i]);
        }
        lemma_dotted_of_ipv4(p.last());
        assert(front.push(p.last()) =~= p);
        (front, Some(ipv4(p.last())->0))
    }
}

/// Nothing else is read as an IPv6 address.
pub proof fn law_ipv6_forms(s: &str, segments: [u16; 8]) -> (form: Form)
    requires
        call_ensures(parse_ipv6, (s,), Some(segments)),
    ensures
        form.is_made_of_groups(),
        form.has_room(),
        s@ == form.text(),
{
    let t = s@;
    if exists|i: int| first_gap_at(t, i) {
        let i = choose|i: int| first_gap_at(t, i);
        let (head, none) = lemma_form_of_groups(t.take(i), false);
        let (tail, v4) = lemma_form_of_groups(t.skip(i + 2), true);
        let form = Form { head, gap: true, tail, v4 };
        assert(gap_at(t, i));
        assert(t =~= t.take(i) + seq![':', ':'] + t.skip(i + 2));
        form
    } else {
        let (tail, v4) = lemma_form_of_groups(t, true);
        Form { head: Seq::empty(), gap: false, tail, v4 }
    }
}

} // verus!
