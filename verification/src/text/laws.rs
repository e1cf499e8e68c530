//! What the operations on text do, call by call.

use crate::text::{
    ascii_lower, entries, equals_ignoring_ascii_case, is_white_space, joined, law_entries_of_joined,
    law_pieces_of_joined, lemma_pieces_not_empty, lemma_pieces_without_separator, lowercase, pieces,
    split, split_entries, texts, trim, trim_end, trim_start, trimmed, unicode_lowercase, Strip,
};
use vstd::prelude::*;
use vstd::utf8::is_ascii_chars;

verus! {

/// How much is cut off in front.
proof fn lemma_cut_in_front(s: Seq<char>, strip: Strip) -> (from: int)
    ensures
        0 <= from <= s.len(),
        trim_start(s, strip) == s.skip(from),
        forall|i: int| 0 <= i < from ==> strip.covers(#[trigger] s[i]),
        from < s.len() ==> !strip.covers(s[from]),
    decreases s.len(),
{
    if s.len() > 0 && strip.covers(s.first()) {
        let rest = s.drop_first();
        let from = lemma_cut_in_front(rest, strip);
        assert forall|i: int| 0 <= i < from + 1 implies strip.covers(#[trigger] s[i]) by {
            if i > 0 {
                assert(rest[i - 1] == s[i]);
            }
        }
        assert(rest.skip(from) =~= s.skip(from + 1));
        from + 1
    } else {
        assert(s.skip(0) =~= s);
        0
    }
}

/// How much is kept before what is cut off at the end.
proof fn lemma_kept_before_end(s: Seq<char>, strip: Strip) -> (to: int)
    ensures
        0 <= to <= s.len(),
        trim_end(s, strip) == s.take(to),
        forall|i: int| to <= i < s.len() ==> strip.covers(#[trigger] s[i]),
        to > 0 ==> !strip.covers(s[to - 1]),
    decreases s.len(),
{
    if s.len() > 0 && strip.covers(s.last()) {
        let rest = s.drop_last();
        let to = lemma_kept_before_end(rest, strip);
        assert forall|i: int| to <= i < s.len() implies strip.covers(#[trigger] s[i]) by {
            if i < rest.len() {
                assert(rest[i] == s[i]);
            }
        }
        assert(rest.take(to) =~= s.take(to));
        to
    } else {
        assert(s.take(s.len() as int) =~= s);
        s.len() as int
    }
}

/// Where a trimmed text stands in the text.
proof fn lemma_trimmed_range(s: Seq<char>, strip: Strip) -> (range: (int, int))
    ensures
        0 <= range.0 <= range.1 <= s.len(),
        trimmed(s, strip) == s.subrange(range.0, range.1),
        forall|i: int| 0 <= i < range.0 ==> strip.covers(#[trigger] s[i]),
        forall|i: int| range.1 <= i < s.len() ==> strip.covers(#[trigger] s[i]),
        range.0 < range.1 ==> !strip.covers(s[range.0]) && !strip.covers(s[range.1 - 1]),
{
    let from = lemma_cut_in_front(s, strip);
    let rest = s.skip(from);
    let kept = lemma_kept_before_end(rest, strip);
    assert forall|i: int| from + kept <= i < s.len() implies strip.covers(#[trigger] s[i]) by {
        assert(rest[i - from] == s[i]);
    }
    assert(rest.take(kept) =~= s.subrange(from, from + kept));
    if kept > 0 {
        assert(rest[0] == s[from]);
        assert(rest[kept - 1] == s[from + kept - 1]);
    }
    (from, from + kept)
}

/// A trimmed text is what stands between the characters that are cut off at both ends, all of them
/// and no other: white space, or square brackets.
pub proof fn law_trim(s: &str, strip: Strip, r: &str)
    requires
        call_ensures(trim, (s, strip), r),
    ensures
        exists|from: int, to: int|
            #![trigger s@.subrange(from, to)]
            {
                &&& 0 <= from <= to <= s@.len()
                &&& r@ == s@.subrange(from, to)
                &&& forall|i: int|
                    0 <= i < from || to <= i < s@.len() ==> match strip {
                        Strip::WhiteSpace => is_white_space(#[trigger] s@[i]),
                        Strip::Brackets => s@[i] == '[' || s@[i] == ']',
                    }
                &&& from < to ==> match strip {
                    Strip::WhiteSpace => !is_white_space(s@[from]) && !is_white_space(s@[to - 1]),
                    Strip::Brackets => s@[from] != '[' && s@[from] != ']' && s@[to - 1] != '['
                        && s@[to - 1] != ']',
                }
            },
{
    let (from, to) = lemma_trimmed_range(s@, strip);
    assert(r@ == s@.subrange(from, to));
    assert forall|i: int| 0 <= i < from || to <= i < s@.len() implies (match strip {
        Strip::WhiteSpace => is_white_space(#[trigger] s@[i]),
        Strip::Brackets => s@[i] == '[' || s@[i] == ']',
    }) by {
        assert(strip.covers(s@[i]));
    }
}

/// What is cut off is settled by where it ends.
proof fn lemma_trimmed_is(s: Seq<char>, strip: Strip, from: int, to: int)
    requires
        0 <= from < to <= s.len(),
        forall|i: int| 0 <= i < from ==> strip.covers(#[trigger] s[i]),
        forall|i: int| to <= i < s.len() ==> strip.covers(#[trigger] s[i]),
        !strip.covers(s[from]),
        !strip.covers(s[to - 1]),
    ensures
        trimmed(s, strip) == s.subrange(from, to),
{
    let (f, t) = lemma_trimmed_range(s, strip);
    assert(f == from) by {
        if f > from {
            assert(strip.covers(s[from]));
        } else if f < from {
            assert(strip.covers(s[f]));
        }
    }
    assert(t == to) by {
        if t < to {
            assert(strip.covers(s[to - 1]));
        } else if t > to {
            assert(strip.covers(s[t - 1]));
        }
    }
}

/// A text without square brackets at its ends is left alone, and brackets around it are cut off,
/// nothing else.
pub proof fn law_brackets(inner: Seq<char>)
    requires
        inner.len() > 0,
        inner.first() != '[' && inner.first() != ']',
        inner.last() != '[' && inner.last() != ']',
    ensures
        trimmed(inner, Strip::Brackets) == inner,
        trimmed(seq!['['] + inner + seq![']'], Strip::Brackets) == inner,
{
    let n = inner.len() as int;
    lemma_trimmed_is(inner, Strip::Brackets, 0, n);
    assert(inner.subrange(0, n) =~= inner);
    let all = seq!['['] + inner + seq![']'];
    assert(all[1] == inner[0]);
    assert(all[n] == inner[n - 1]);
    assert(all[0] == '[');
    assert(all[n + 1] == ']');
    lemma_trimmed_is(all, Strip::Brackets, 1, n + 1);
    assert(all.subrange(1, n + 1) =~= inner);
}

/// Pieces hold no separator, and joined with separators they are the text again.
pub proof fn law_split(s: &str, sep: char, r: Vec<&str>, i: int)
    requires
        call_ensures(split, (s, sep), r),
    ensures
        r.len() > 0,
        0 <= i < r.len() ==> !r[i]@.contains(sep),
        joined(r@.map_values(|p: &str| p@), sep) == s@,
{
    lemma_pieces_not_empty(s@, sep);
    lemma_joined_pieces(s@, sep);
    if 0 <= i < r.len() {
        lemma_pieces_without_separator(s@, sep, i);
    }
}

/// Pieces, joined with separators, are the text again.
pub proof fn lemma_joined_pieces(s: Seq<char>, sep: char)
    ensures
        joined(pieces(s, sep), sep) == s,
    decreases s.len(),
{
    let all = pieces(s, sep);
    lemma_pieces_not_empty(s, sep);
    if s.len() == 0 {
        assert(s =~= Seq::<char>::empty());
    } else {
        let front = s.drop_last();
        let before = pieces(front, sep);
        lemma_pieces_not_empty(front, sep);
        lemma_joined_pieces(front, sep);
        if s.last() == sep {
            assert(all.drop_last() =~= before);
            assert(front.push(sep) + Seq::<char>::empty() =~= s);
        } else {
            assert(all.drop_last() =~= before.drop_last());
            if before.len() == 1 {
                assert(front.push(s.last()) =~= s);
            } else {
                let head = joined(before.drop_last(), sep).push(sep);
                assert((head + before.last()).push(s.last()) =~= head + before.last().push(
                    s.last(),
                ));
                assert(front.push(s.last()) =~= s);
            }
        }
    }
}

/// The entries of a list are the texts between its commas without the white space around them, in
/// order, but for those that hold nothing.
pub proof fn law_split_entries(s: &str, r: Vec<String>, parts: Seq<Seq<char>>)
    requires
        call_ensures(split_entries, (s,), r),
        parts.len() > 0,
        forall|i: int| 0 <= i < parts.len() ==> !#[trigger] parts[i].contains(','),
        s@ == joined(parts, ','),
    ensures
        texts(r@) == parts.map_values(|p: Seq<char>| trimmed(p, Strip::WhiteSpace)).filter(
            |p: Seq<char>| p.len() > 0,
        ),
{
    law_entries_of_joined(parts);
}

/// A list of one text, without a comma or white space around it, is that text.
pub proof fn law_single_entry(entry: Seq<char>)
    requires
        entry.len() > 0,
        !entry.contains(','),
        !is_white_space(entry.first()),
        !is_white_space(entry.last()),
    ensures
        entries(entry) == seq![entry],
{
    let parts = seq![entry];
    let trims = |p: Seq<char>| trimmed(p, Strip::WhiteSpace);
    let keep = |p: Seq<char>| p.len() > 0;
    law_pieces_of_joined(parts, ',');
    lemma_trimmed_is(entry, Strip::WhiteSpace, 0, entry.len() as int);
    assert(entry.subrange(0, entry.len() as int) =~= entry);
    assert(parts.map_values(trims) =~= parts);
    assert(parts.drop_last() =~= Seq::<Seq<char>>::empty());
    reveal_with_fuel(Seq::filter, 2);
    assert(parts.filter(keep) =~= parts);
}

/// In an ASCII text, exactly the letters from `A` to `Z` change, into the ones 32 places on; any
/// other text becomes what the standard library makes of it.
pub proof fn law_lowercase(s: &str, r: String)
    requires
        call_ensures(lowercase, (s,), r),
    ensures
        !is_ascii_chars(s@) ==> r@ == unicode_lowercase(s@),
        is_ascii_chars(s@) ==> r@.len() == s@.len(),
        is_ascii_chars(s@) ==> forall|i: int|
            0 <= i < s@.len() ==> (#[trigger] r@[i]) as int == (if 65 <= s@[i] as int <= 90 {
                s@[i] as int + 32
            } else {
                s@[i] as int
            }),
{
}

/// Texts are equal but for case exactly if they are as long as each other, and the second has at
/// each place what the first has, an upper-case letter in lower case.
pub proof fn law_equal_ignoring_case(s: &str, lower: &str, r: bool)
    requires
        call_ensures(equals_ignoring_ascii_case, (s, lower), r),
    ensures
        r <==> s@.len() == lower@.len() && forall|i: int|
            0 <= i < s@.len() ==> (#[trigger] lower@[i]) as int == (if 65 <= s@[i] as int <= 90 {
                s@[i] as int + 32
            } else {
                s@[i] as int
            }),
{
    let low = crate::text::ascii_lowercase(s@);
    if r {
        assert forall|i: int| 0 <= i < s@.len() implies (#[trigger] lower@[i]) as int == (if 65
            <= s@[i] as int <= 90 {
            s@[i] as int + 32
        } else {
            s@[i] as int
        }) by {
            assert(low[i] == ascii_lower(s@[i]));
        }
    } else if s@.len() == lower@.len() && forall|i: int|
        0 <= i < s@.len() ==> (#[trigger] lower@[i]) as int == (if 65 <= s@[i] as int <= 90 {
            s@[i] as int + 32
        } else {
            s@[i] as int
        }) {
        assert forall|i: int| 0 <= i < s@.len() implies low[i] == lower@[i] by {
            let c = lower@[i];
            assert(low[i] == ascii_lower(s@[i]));
        }
        assert(low =~= lower@);
    }
}

} // verus!
