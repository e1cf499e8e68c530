//! What the reading and writing of numbers do, call by call.

use crate::decimal::{
    decimal, decimal_string, digits_value, is_digit, law_decimal_read_back, leading_digits,
    lemma_decimal_digits, lemma_digits_are_decimal, lemma_leading_digits, lemma_no_leading_zero,
    parse_decimal, IntErrorKind,
};
use vstd::prelude::*;

verus! {

/// Digits that something else follows are the leading digits.
proof fn lemma_leading_digits_of(digits: Seq<char>, rest: Seq<char>)
    requires
        forall|i: int| 0 <= i < digits.len() ==> is_digit(#[trigger] digits[i]),
        rest.len() > 0 ==> !is_digit(rest[0]),
    ensures
        leading_digits(digits + rest) == digits,
{
    let s = digits + rest;
    let run = leading_digits(s);
    lemma_leading_digits(s);
    if run.len() < digits.len() {
        assert(s[run.len() as int] == digits[run.len() as int]);
    } else if run.len() > digits.len() {
        assert(s[digits.len() as int] == rest[0]);
        assert(is_digit(s[digits.len() as int]));
    }
    assert(run =~= digits);
}

/// Zeros in front do not change a number.
proof fn lemma_zeros_in_front(zeros: nat, digits: Seq<char>)
    ensures
        digits_value(Seq::new(zeros, |i: int| '0') + digits) == digits_value(digits),
    decreases digits.len(), zeros,
{
    let front = Seq::new(zeros, |i: int| '0');
    let s = front + digits;
    if digits.len() > 0 {
        lemma_zeros_in_front(zeros, digits.drop_last());
        assert(s.drop_last() =~= front + digits.drop_last());
        assert(s.last() == digits.last());
    } else {
        assert(s =~= front);
        if zeros > 0 {
            let fewer = (zeros - 1) as nat;
            lemma_zeros_in_front(fewer, digits);
            assert(s.drop_last() =~= Seq::new(fewer, |i: int| '0') + digits);
        }
    }
}

/// A text of an optional sign, zeros, and a number in decimal, that nothing or no digit follows.
pub open spec fn numeral(sign: bool, zeros: nat, n: nat, rest: Seq<char>) -> Seq<char> {
    (if sign {
        seq!['+']
    } else {
        Seq::empty()
    }) + (Seq::new(zeros, |i: int| '0') + decimal(n) + rest)
}

/// A number reads as what it says, with or without a plus sign and zeros in front. One that is too
/// large is too large, also where something follows that is no digit; if it is not, that is what is
/// wrong.
pub proof fn law_parse_decimal(
    s: &str,
    max: u64,
    r: Result<u64, IntErrorKind>,
    sign: bool,
    zeros: nat,
    n: nat,
    rest: Seq<char>,
)
    requires
        call_ensures(parse_decimal, (s, max), r),
        s@ == numeral(sign, zeros, n, rest),
        rest.len() > 0 ==> !('0' <= rest[0] <= '9'),
    ensures
        n > max ==> r == Err::<u64, _>(IntErrorKind::PosOverflow),
        n <= max && rest.len() > 0 ==> r == Err::<u64, _>(IntErrorKind::InvalidDigit),
        n <= max && rest.len() == 0 ==> r == Ok::<_, IntErrorKind>(n as u64),
{
    let digits = Seq::new(zeros, |i: int| '0') + decimal(n);
    lemma_decimal_digits(n);
    assert forall|i: int| 0 <= i < digits.len() implies is_digit(#[trigger] digits[i]) by {
        if i >= zeros {
            assert(digits[i] == decimal(n)[i - zeros]);
        }
    }
    lemma_leading_digits_of(digits, rest);
    lemma_zeros_in_front(zeros, decimal(n));
    let tail = digits + rest;
    if sign {
        assert(s@.drop_first() =~= tail);
        assert(s@.first() == '+');
    } else {
        assert(s@ =~= tail);
        assert(is_digit(tail[0])) by {
            assert(tail[0] == digits[0]);
        }
    }
}

/// A text whose first character, behind a plus sign if there is one, is no digit is no number.
pub proof fn law_parse_no_digit(s: &str, max: u64, r: Result<u64, IntErrorKind>)
    requires
        call_ensures(parse_decimal, (s, max), r),
    ensures
        s@.len() == 0 <==> r == Err::<u64, _>(IntErrorKind::Empty),
        s@.len() == 1 && !('0' <= s@[0] <= '9') ==> r == Err::<u64, _>(IntErrorKind::InvalidDigit),
        s@.len() > 1 && s@[0] != '+' && !('0' <= s@[0] <= '9') ==> r == Err::<u64, _>(
            IntErrorKind::InvalidDigit,
        ),
        s@.len() > 1 && s@[0] == '+' && !('0' <= s@[1] <= '9') ==> r == Err::<u64, _>(
            IntErrorKind::InvalidDigit,
        ),
{
    let digits = if s@.len() > 1 && s@.first() == '+' {
        s@.drop_first()
    } else {
        s@
    };
    if s@.len() > 0 && !is_digit(digits[0]) {
        let none = Seq::<char>::empty();
        assert(none + digits =~= digits);
        lemma_leading_digits_of(none, digits);
    }
}

/// Only a number reads as one: what reads as `n` is an optional plus sign, zeros, and `n` in
/// decimal.
pub proof fn law_parsed_is_numeral(s: &str, max: u64, n: u64) -> (form: (bool, nat))
    requires
        call_ensures(parse_decimal, (s, max), Ok::<_, IntErrorKind>(n)),
    ensures
        n <= max,
        s@ == numeral(form.0, form.1, n as nat, Seq::empty()),
{
    let sign = s@.len() > 1 && s@.first() == '+';
    let digits = if sign {
        s@.drop_first()
    } else {
        s@
    };
    lemma_leading_digits(digits);
    assert(digits.take(digits.len() as int) =~= digits);
    let zeros = lemma_zeros_and_decimal(digits);
    let text = Seq::new(zeros, |i: int| '0') + decimal(n as nat) + Seq::<char>::empty();
    assert(text =~= digits);
    assert(numeral(sign, zeros, n as nat, Seq::empty()) =~= s@);
    (sign, zeros)
}

/// Digits are zeros and a number in decimal.
proof fn lemma_zeros_and_decimal(digits: Seq<char>) -> (zeros: nat)
    requires
        digits.len() > 0,
        forall|i: int| 0 <= i < digits.len() ==> is_digit(#[trigger] digits[i]),
    ensures
        digits == Seq::new(zeros, |i: int| '0') + decimal(digits_value(digits)),
    decreases digits.len(),
{
    if digits.len() > 1 && digits[0] == '0' {
        let rest = digits.drop_first();
        assert forall|i: int| 0 <= i < rest.len() implies is_digit(#[trigger] rest[i]) by {
            assert(rest[i] == digits[i + 1]);
        }
        let fewer = lemma_zeros_and_decimal(rest);
        assert(Seq::new(1, |i: int| '0') + rest =~= digits);
        lemma_zeros_in_front(1, rest);
        assert(digits =~= Seq::new(fewer + 1, |i: int| '0') + decimal(digits_value(digits)));
        fewer + 1
    } else {
        lemma_digits_are_decimal(digits);
        assert(digits =~= Seq::new(0, |i: int| '0') + decimal(digits_value(digits)));
        0
    }
}

/// A number is written in digits, without a needless zero in front, and reads back.
pub proof fn law_decimal_string(
    n: u64,
    text: String,
    s: &str,
    max: u64,
    r: Result<u64, IntErrorKind>,
)
    requires
        call_ensures(decimal_string, (n,), text),
        s@ == text@,
        n <= max,
        call_ensures(parse_decimal, (s, max), r),
    ensures
        text@.len() > 0,
        forall|i: int| 0 <= i < text@.len() ==> '0' <= #[trigger] text@[i] <= '9',
        text@.len() > 1 ==> text@[0] != '0',
        r == Ok::<_, IntErrorKind>(n),
{
    lemma_decimal_digits(n as nat);
    lemma_no_leading_zero(n as nat);
    law_decimal_read_back(n as nat, max as nat);
    assert forall|i: int| 0 <= i < text@.len() implies '0' <= #[trigger] text@[i] <= '9' by {
        assert(is_digit(decimal(n as nat)[i]));
    }
}

/// The value of digits is positional: the digit at place `k` from the right counts for its number
/// times ten to the power of `k`.
pub proof fn law_positional(front: Seq<char>, last: char)
    requires
        '0' <= last <= '9',
    ensures
        digits_value(front.push(last)) == 10 * digits_value(front) + (last as u32 - 48),
        digits_value(Seq::<char>::empty()) == 0,
{
    assert(front.push(last).drop_last() =~= front);
}

} // verus!
