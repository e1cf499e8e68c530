//! Text as the settings and URLs need it: pieces between separators, trimming and letter case.
//!
//! Specifications speak of a text as its sequence of characters.

pub mod laws;

use vstd::prelude::*;
use vstd::utf8::is_ascii_chars;

verus! {

/// Whether `c` has the Unicode property `White_Space`.
pub open spec fn is_white_space(c: char) -> bool {
    ||| '\u{9}' <= c <= '\u{d}'
    ||| c == '\u{20}'
    ||| c == '\u{85}'
    ||| c == '\u{a0}'
    ||| c == '\u{1680}'
    ||| '\u{2000}' <= c <= '\u{200a}'
    ||| c == '\u{2028}'
    ||| c == '\u{2029}'
    ||| c == '\u{202f}'
    ||| c == '\u{205f}'
    ||| c == '\u{3000}'
}

/// The characters that are cut off both ends of a text.
#[derive(Clone, Copy)]
pub enum Strip {
    /// Unicode white space, around an entry of a list.
    WhiteSpace,
    /// The square brackets around an IP literal in a URL.
    Brackets,
}

impl Strip {
    /// Whether `c` is cut off.
    pub open spec fn covers(self, c: char) -> bool {
        match self {
            Strip::WhiteSpace => is_white_space(c),
            Strip::Brackets => c == '[' || c == ']',
        }
    }

    fn strips(self, c: char) -> (r: bool)
        ensures
            r == self.covers(c),
    {
        match self {
            Strip::WhiteSpace => ('\u{9}' <= c && c <= '\u{d}') || c == '\u{20}' || c == '\u{85}'
                || c == '\u{a0}' || c == '\u{1680}' || ('\u{2000}' <= c && c <= '\u{200a}') || c
                == '\u{2028}' || c == '\u{2029}' || c == '\u{202f}' || c == '\u{205f}' || c
                == '\u{3000}',
            Strip::Brackets => c == '[' || c == ']',
        }
    }
}

/// `s` without the characters of `strip` in front.
pub open spec fn trim_start(s: Seq<char>, strip: Strip) -> Seq<char>
    decreases s.len(),
{
    if s.len() > 0 && strip.covers(s.first()) {
        trim_start(s.drop_first(), strip)
    } else {
        s
    }
}

/// `s` without the characters of `strip` at the end.
pub open spec fn trim_end(s: Seq<char>, strip: Strip) -> Seq<char>
    decreases s.len(),
{
    if s.len() > 0 && strip.covers(s.last()) {
        trim_end(s.drop_last(), strip)
    } else {
        s
    }
}

/// `s` without the characters of `strip` at either end.
pub open spec fn trimmed(s: Seq<char>, strip: Strip) -> Seq<char> {
    trim_end(trim_start(s, strip), strip)
}

/// The characters of a text, one by one.
pub fn chars_of(s: &str) -> (r: Vec<char>)
    ensures
        r@ == s@,
{
    let mut r: Vec<char> = Vec::new();
    for c in it: s.chars()
        invariant
            it.seq() == s@,
            r@ == s@.take(it.index()),
    {
        r.push(c);
    }
    r
}

/// Cuts the characters of `strip` off both ends of `s`.
pub fn trim<'a>(s: &'a str, strip: Strip) -> (r: &'a str)
    ensures
        r@ == trimmed(s@, strip),
{
    let chars = chars_of(s);
    let mut from: usize = 0;
    assert(s@.skip(0) == s@);
    while from < chars.len() && strip.strips(chars[from])
        invariant
            chars@ == s@,
            from <= chars.len(),
            trim_start(s@, strip) == trim_start(s@.skip(from as int), strip),
        decreases chars.len() - from,
    {
        assert(s@.skip(from as int).drop_first() == s@.skip(from + 1));
        from += 1;
    }
    let mut to: usize = chars.len();
    assert(s@.subrange(from as int, to as int) == s@.skip(from as int));
    while from < to && strip.strips(chars[to - 1])
        invariant
            chars@ == s@,
            from <= to <= chars.len(),
            trim_start(s@, strip) == s@.skip(from as int),
            trimmed(s@, strip) == trim_end(s@.subrange(from as int, to as int), strip),
        decreases to - from,
    {
        assert(s@.subrange(from as int, to as int).drop_last() == s@.subrange(
            from as int,
            to - 1,
        ));
        to -= 1;
    }
    s.substring_char(from, to)
}

/// The pieces of `s` between the separators `sep`; one empty piece where `s` is empty.
pub open spec fn pieces(s: Seq<char>, sep: char) -> Seq<Seq<char>>
    decreases s.len(),
{
    if s.len() == 0 {
        seq![Seq::<char>::empty()]
    } else {
        let before = pieces(s.drop_last(), sep);
        if s.last() == sep {
            before.push(Seq::<char>::empty())
        } else {
            before.drop_last().push(before.last().push(s.last()))
        }
    }
}

/// A text without a separator is one piece.
pub proof fn lemma_single_piece(s: Seq<char>, sep: char)
    requires
        !s.contains(sep),
    ensures
        pieces(s, sep) == seq![s],
    decreases s.len(),
{
    if s.len() > 0 {
        let front = s.drop_last();
        assert(!front.contains(sep)) by {
            if front.contains(sep) {
                let k = choose|k: int| 0 <= k < front.len() && front[k] == sep;
                assert(s[k] == sep);
            }
        }
        lemma_single_piece(front, sep);
        assert(s[s.len() - 1] != sep);
        assert(front.push(s.last()) == s);
    } else {
        assert(s == Seq::<char>::empty());
    }
}

/// A character that is no separator stands in one of the pieces.
pub proof fn lemma_piece_of(s: Seq<char>, sep: char, k: int) -> (i: int)
    requires
        0 <= k < s.len(),
        s[k] != sep,
    ensures
        0 <= i < pieces(s, sep).len(),
        pieces(s, sep)[i].contains(s[k]),
    decreases s.len(),
{
    let front = s.drop_last();
    let before = pieces(front, sep);
    let all = pieces(s, sep);
    if k < front.len() {
        let i = lemma_piece_of(front, sep, k);
        let m = choose|m: int| 0 <= m < before[i].len() && before[i][m] == front[k];
        assert(all[i][m] == s[k]);
        i
    } else {
        let last = all.last();
        assert(last[last.len() - 1] == s[k]);
        all.len() - 1
    }
}

/// The texts that the strings of `v` hold.
pub open spec fn texts(v: Seq<String>) -> Seq<Seq<char>> {
    v.map_values(|s: String| s@)
}

/// The text of a value that may be missing.
pub open spec fn optional_text(s: Option<String>) -> Option<Seq<char>> {
    match s {
        Some(s) => Some(s@),
        None => None,
    }
}

/// Cuts `s` at every `sep`.
pub fn split<'a>(s: &'a str, sep: char) -> (r: Vec<&'a str>)
    ensures
        r@.map_values(|p: &'a str| p@) == pieces(s@, sep),
{
    let chars = chars_of(s);
    let mut r: Vec<&'a str> = Vec::new();
    let mut start: usize = 0;
    let mut i: usize = 0;
    let ghost view = |p: &'a str| p@;
    assert(s@.take(0) == Seq::<char>::empty());
    assert(r@.map_values(view).push(s@.subrange(0, 0)) == seq![Seq::<char>::empty()]);
    while i < chars.len()
        invariant
            chars@ == s@,
            start <= i <= chars.len(),
            view == (|p: &'a str| p@),
            pieces(s@.take(i as int), sep) == r@.map_values(view).push(
                s@.subrange(start as int, i as int),
            ),
        decreases chars.len() - i,
    {
        let ghost so_far = s@.take(i + 1);
        assert(so_far.drop_last() == s@.take(i as int));
        if chars[i] == sep {
            let piece = s.substring_char(start, i);
            let ghost before = r@;
            r.push(piece);
            start = i + 1;
            assert(r@.map_values(view) == before.map_values(view).push(piece@));
            assert(s@.subrange(start as int, i + 1) == Seq::<char>::empty());
        } else {
            assert(s@.subrange(start as int, i + 1) == s@.subrange(start as int, i as int).push(
                chars@[i as int],
            ));
            assert(r@.map_values(view).push(s@.subrange(start as int, i as int)).drop_last()
                == r@.map_values(view));
        }
        i += 1;
    }
    let last = s.substring_char(start, i);
    let ghost before = r@;
    r.push(last);
    proof {
        assert(s@.take(i as int) == s@);
        assert(r@.map_values(view) == before.map_values(view).push(last@));
    }
    r
}

/// The entries of a comma-separated list: the pieces between the commas without the white space
/// around them, those that hold nothing left out.
pub open spec fn entries(s: Seq<char>) -> Seq<Seq<char>> {
    pieces(s, ',').map_values(|p: Seq<char>| trimmed(p, Strip::WhiteSpace)).filter(
        |p: Seq<char>| p.len() > 0,
    )
}

/// Reads a comma-separated list.
pub fn split_entries(s: &str) -> (r: Vec<String>)
    ensures
        texts(r@) == entries(s@),
{
    let parts = split(s, ',');
    let ghost trims = |p: Seq<char>| trimmed(p, Strip::WhiteSpace);
    let ghost keep = |p: Seq<char>| p.len() > 0;
    let ghost all = pieces(s@, ',').map_values(trims);
    let mut r: Vec<String> = Vec::new();
    let mut i: usize = 0;
    assert(all.take(0).filter(keep) == Seq::<Seq<char>>::empty());
    while i < parts.len()
        invariant
            i <= parts.len(),
            parts.len() == all.len(),
            keep == (|p: Seq<char>| p.len() > 0),
            forall|j: int|
                #![trigger all[j]]
                0 <= j < parts.len() ==> all[j] == trimmed(parts[j]@, Strip::WhiteSpace),
            texts(r@) == all.take(i as int).filter(keep),
        decreases parts.len() - i,
    {
        let entry = trim(parts[i], Strip::WhiteSpace);
        let ghost before = r@;
        assert(all[i as int] == entry@);
        assert(all.take(i + 1).drop_last() == all.take(i as int));
        proof {
            reveal_with_fuel(Seq::filter, 2);
        }
        if !entry.is_empty() {
            let owned = entry.to_owned();
            r.push(owned);
            assert(texts(r@) == texts(before).push(owned@));
        }
        i += 1;
    }
    assert(all.take(i as int) == all);
    r
}

/// `c`, with an upper-case ASCII letter made lower case.
pub open spec fn ascii_lower(c: char) -> char {
    if 'A' <= c <= 'Z' {
        ((c as u8) + 32) as u8 as char
    } else {
        c
    }
}

/// `s` with its upper-case ASCII letters made lower case.
pub open spec fn ascii_lowercase(s: Seq<char>) -> Seq<char> {
    s.map_values(|c: char| ascii_lower(c))
}

/// Makes an upper-case ASCII letter lower case.
fn to_ascii_lower(c: char) -> (r: char)
    ensures
        r == ascii_lower(c),
{
    if 'A' <= c && c <= 'Z' {
        (c as u8 + 32) as char
    } else {
        c
    }
}

/// Whether `s` is `lower` but for upper-case ASCII letters; `lower` holds none.
pub fn equals_ignoring_ascii_case(s: &str, lower: &str) -> (r: bool)
    ensures
        r == (ascii_lowercase(s@) == lower@),
{
    let x = chars_of(s);
    let y = chars_of(lower);
    if x.len() != y.len() {
        assert(ascii_lowercase(s@).len() != lower@.len());
        return false;
    }
    let mut i: usize = 0;
    while i < x.len()
        invariant
            x@ == s@,
            y@ == lower@,
            x.len() == y.len(),
            i <= x.len(),
            forall|j: int| 0 <= j < i ==> #[trigger] ascii_lowercase(s@)[j] == lower@[j],
        decreases x.len() - i,
    {
        assert(ascii_lowercase(s@)[i as int] == ascii_lower(s@[i as int]));
        if to_ascii_lower(x[i]) != y[i] {
            return false;
        }
        i += 1;
    }
    assert(ascii_lowercase(s@) =~= lower@);
    true
}

/// What `str::to_lowercase` returns for a text.
pub uninterp spec fn unicode_lowercase(s: Seq<char>) -> Seq<char>;

/// The lower-case form of a text: letter by letter in ASCII, by the Unicode tables elsewhere.
pub open spec fn lowercased(s: Seq<char>) -> Seq<char> {
    if is_ascii_chars(s) {
        ascii_lowercase(s)
    } else {
        unicode_lowercase(s)
    }
}

/// Calls `str::to_lowercase`.
///
/// Trusted: the result is a function of the text, and on an ASCII text exactly the letters `A` to
/// `Z` change, into `a` to `z`.
#[verifier::external_body]
fn to_lowercase(s: &str) -> (r: String)
    ensures
        r@ == unicode_lowercase(s@),
        is_ascii_chars(s@) ==> r@ == ascii_lowercase(s@),
{
    s.to_lowercase()
}

/// The lower-case form of `s`.
pub fn lowercase(s: &str) -> (r: String)
    ensures
        r@ == lowercased(s@),
{
    to_lowercase(s)
}

/// Whether `c` occurs in `s`.
pub fn contains_char(s: &str, c: char) -> (r: bool)
    ensures
        r == s@.contains(c),
{
    let chars = chars_of(s);
    let mut i: usize = 0;
    while i < chars.len()
        invariant
            chars@ == s@,
            i <= chars.len(),
            forall|j: int| 0 <= j < i ==> s@[j] != c,
        decreases chars.len() - i,
    {
        if chars[i] == c {
            assert(s@[i as int] == c);
            return true;
        }
        i += 1;
    }
    false
}

/// Whether two texts hold the same characters.
pub fn same_text(a: &str, b: &str) -> (r: bool)
    ensures
        r == (a@ == b@),
{
    let x = chars_of(a);
    let y = chars_of(b);
    if x.len() != y.len() {
        return false;
    }
    let mut i: usize = 0;
    while i < x.len()
        invariant
            x@ == a@,
            y@ == b@,
            x.len() == y.len(),
            i <= x.len(),
            forall|j: int| 0 <= j < i ==> a@[j] == b@[j],
        decreases x.len() - i,
    {
        if x[i] != y[i] {
            return false;
        }
        i += 1;
    }
    assert(a@ =~= b@);
    true
}

/// What trimming leaves neither begins nor ends with a stripped character, and is a stretch of the
/// text.
pub proof fn lemma_trimmed(s: Seq<char>, strip: Strip)
    ensures
        trimmed(s, strip).len() > 0 ==> !strip.covers(trimmed(s, strip).first())
            && !strip.covers(trimmed(s, strip).last()),
        forall|c: char| trimmed(s, strip).contains(c) ==> s.contains(c),
{
    let front = trim_start(s, strip);
    lemma_trim_start(s, strip);
    lemma_trim_end(front, strip);
    let all = trim_end(front, strip);
    assert forall|c: char| all.contains(c) implies s.contains(c) by {
        let k = choose|k: int| 0 <= k < all.len() && all[k] == c;
        assert(front[k] == c);
        assert(s[s.len() - front.len() + k] == c);
    }
}

proof fn lemma_trim_start(s: Seq<char>, strip: Strip)
    ensures
        trim_start(s, strip).len() <= s.len(),
        trim_start(s, strip) == s.skip(s.len() - trim_start(s, strip).len()),
        trim_start(s, strip).len() > 0 ==> !strip.covers(trim_start(s, strip).first()),
    decreases s.len(),
{
    if s.len() > 0 && strip.covers(s.first()) {
        lemma_trim_start(s.drop_first(), strip);
    }
}

proof fn lemma_trim_end(s: Seq<char>, strip: Strip)
    ensures
        trim_end(s, strip).len() <= s.len(),
        trim_end(s, strip) == s.take(trim_end(s, strip).len() as int),
        trim_end(s, strip).len() > 0 ==> !strip.covers(trim_end(s, strip).last()),
    decreases s.len(),
{
    if s.len() > 0 && strip.covers(s.last()) {
        lemma_trim_end(s.drop_last(), strip);
    }
}

/// No piece holds a separator.
pub proof fn lemma_pieces_without_separator(s: Seq<char>, sep: char, i: int)
    requires
        0 <= i < pieces(s, sep).len(),
    ensures
        !pieces(s, sep)[i].contains(sep),
    decreases s.len(),
{
    if s.len() > 0 {
        let before = pieces(s.drop_last(), sep);
        let piece = pieces(s, sep)[i];
        if i < before.len() {
            lemma_pieces_without_separator(s.drop_last(), sep, i);
        }
        if piece.contains(sep) {
            let k = choose|k: int| 0 <= k < piece.len() && piece[k] == sep;
            if i < before.len() {
                assert(k < before[i].len() ==> before[i][k] == sep);
            }
        }
    }
}

/// An entry of a list is never empty, holds no comma, and has no white space at either end.
pub proof fn law_entries_clean(s: Seq<char>, i: int)
    requires
        0 <= i < entries(s).len(),
    ensures
        entries(s)[i].len() > 0,
        !entries(s)[i].contains(','),
        !is_white_space(entries(s)[i].first()),
        !is_white_space(entries(s)[i].last()),
{
    let parts = pieces(s, ',');
    let trims = |p: Seq<char>| trimmed(p, Strip::WhiteSpace);
    let keep = |p: Seq<char>| p.len() > 0;
    let all = parts.map_values(trims);
    let entry = entries(s)[i];
    assert(all.filter(keep).contains(entry));
    all.lemma_filter_contains_rev(keep, entry);
    all.lemma_filter_pred(keep, i);
    let k = choose|k: int| 0 <= k < all.len() && all[k] == entry;
    lemma_trimmed(parts[k], Strip::WhiteSpace);
    lemma_pieces_without_separator(s, ',', k);
}

/// Texts with separators between them.
pub open spec fn joined(parts: Seq<Seq<char>>, sep: char) -> Seq<char>
    decreases parts.len(),
{
    if parts.len() == 0 {
        Seq::empty()
    } else if parts.len() == 1 {
        parts[0]
    } else {
        joined(parts.drop_last(), sep).push(sep) + parts.last()
    }
}

/// A separator and a text behind it make one piece more.
pub proof fn lemma_pieces_append(s: Seq<char>, last: Seq<char>, sep: char)
    requires
        !last.contains(sep),
    ensures
        pieces(s.push(sep) + last, sep) == pieces(s, sep).push(last),
    decreases last.len(),
{
    let all = s.push(sep) + last;
    if last.len() == 0 {
        assert(all == s.push(sep));
        assert(all.drop_last() == s);
        assert(last == Seq::<char>::empty());
    } else {
        let front = last.drop_last();
        assert(!front.contains(sep)) by {
            if front.contains(sep) {
                let k = choose|k: int| 0 <= k < front.len() && front[k] == sep;
                assert(last[k] == sep);
            }
        }
        lemma_pieces_append(s, front, sep);
        assert(all.drop_last() == s.push(sep) + front);
        assert(last[last.len() - 1] != sep);
        assert(front.push(last.last()) == last);
    }
}

/// Texts that are joined with separators come apart again.
pub proof fn law_pieces_of_joined(parts: Seq<Seq<char>>, sep: char)
    requires
        parts.len() > 0,
        forall|i: int| 0 <= i < parts.len() ==> !#[trigger] parts[i].contains(sep),
    ensures
        pieces(joined(parts, sep), sep) == parts,
    decreases parts.len(),
{
    if parts.len() == 1 {
        lemma_single_piece(parts[0], sep);
    } else {
        law_pieces_of_joined(parts.drop_last(), sep);
        lemma_pieces_append(joined(parts.drop_last(), sep), parts.last(), sep);
    }
}

/// A list reads back: of texts that are joined with commas, each is an entry, in the same order,
/// without the white space around it; those that hold nothing are left out.
pub proof fn law_entries_of_joined(parts: Seq<Seq<char>>)
    requires
        parts.len() > 0,
        forall|i: int| 0 <= i < parts.len() ==> !#[trigger] parts[i].contains(','),
    ensures
        entries(joined(parts, ',')) == parts.map_values(
            |p: Seq<char>| trimmed(p, Strip::WhiteSpace),
        ).filter(|p: Seq<char>| p.len() > 0),
{
    law_pieces_of_joined(parts, ',');
}

/// Making letters lower case neither makes nor removes a character that is no letter.
pub proof fn lemma_lower_char(c: char, other: char)
    requires
        !('a' <= other <= 'z'),
        !('A' <= other <= 'Z'),
    ensures
        ascii_lower(c) == other <==> c == other,
{
}

/// The pieces of a text in lower case are its pieces, in lower case.
pub proof fn lemma_pieces_lowercase(s: Seq<char>, sep: char)
    requires
        !('a' <= sep <= 'z'),
        !('A' <= sep <= 'Z'),
    ensures
        pieces(ascii_lowercase(s), sep) == pieces(s, sep).map_values(
            |p: Seq<char>| ascii_lowercase(p),
        ),
    decreases s.len(),
{
    let low = ascii_lowercase(s);
    let f = |p: Seq<char>| ascii_lowercase(p);
    if s.len() == 0 {
        assert(ascii_lowercase(Seq::<char>::empty()) == Seq::<char>::empty());
    } else {
        let front = s.drop_last();
        lemma_pieces_lowercase(front, sep);
        lemma_lower_char(s.last(), sep);
        assert(low.drop_last() == ascii_lowercase(front));
        assert(low.last() == ascii_lower(s.last()));
        let before = pieces(front, sep);
        assert(ascii_lowercase(Seq::<char>::empty()) == Seq::<char>::empty());
        if s.last() != sep {
            assert(ascii_lowercase(before.last().push(s.last())) == ascii_lowercase(
                before.last(),
            ).push(ascii_lower(s.last())));
        }
        assert(pieces(low, sep) =~= pieces(s, sep).map_values(f));
    }
}

proof fn lemma_trim_start_lowercase(s: Seq<char>)
    ensures
        trim_start(ascii_lowercase(s), Strip::Brackets) == ascii_lowercase(
            trim_start(s, Strip::Brackets),
        ),
    decreases s.len(),
{
    if s.len() > 0 {
        lemma_lower_char(s.first(), '[');
        lemma_lower_char(s.first(), ']');
        lemma_trim_start_lowercase(s.drop_first());
        assert(ascii_lowercase(s).drop_first() == ascii_lowercase(s.drop_first()));
    }
}

proof fn lemma_trim_end_lowercase(s: Seq<char>)
    ensures
        trim_end(ascii_lowercase(s), Strip::Brackets) == ascii_lowercase(
            trim_end(s, Strip::Brackets),
        ),
    decreases s.len(),
{
    if s.len() > 0 {
        lemma_lower_char(s.last(), '[');
        lemma_lower_char(s.last(), ']');
        lemma_trim_end_lowercase(s.drop_last());
        assert(ascii_lowercase(s).drop_last() == ascii_lowercase(s.drop_last()));
    }
}

/// Brackets are cut off alike in either case.
pub proof fn lemma_trimmed_lowercase(s: Seq<char>)
    ensures
        trimmed(ascii_lowercase(s), Strip::Brackets) == ascii_lowercase(
            trimmed(s, Strip::Brackets),
        ),
{
    lemma_trim_start_lowercase(s);
    lemma_trim_end_lowercase(trim_start(s, Strip::Brackets));
}

/// There is always a piece.
pub proof fn lemma_pieces_not_empty(s: Seq<char>, sep: char)
    ensures
        pieces(s, sep).len() > 0,
    decreases s.len(),
{
    if s.len() > 0 {
        lemma_pieces_not_empty(s.drop_last(), sep);
    }
}

} // verus!
