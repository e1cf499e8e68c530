//! Decimal numbers as text: how they are written, and how they are read.

pub mod laws;

use crate::text::chars_of;
use vstd::prelude::*;
use vstd::utf8::is_ascii_chars;

verus! {

/// Whether `c` is an ASCII decimal digit.
pub open spec fn is_digit(c: char) -> bool {
    '0' <= c <= '9'
}

/// The number that a digit stands for.
pub open spec fn digit_value(c: char) -> nat {
    (c as u32 - '0' as u32) as nat
}

/// The digit for a number below ten.
pub open spec fn digit(n: nat) -> char {
    (n + '0' as u32) as u32 as char
}

/// `n` in decimal, without leading zeros.
pub open spec fn decimal(n: nat) -> Seq<char>
    decreases n,
{
    if n < 10 {
        seq![digit(n)]
    } else {
        decimal(n / 10).push(digit(n % 10))
    }
}

/// The number that a run of digits stands for.
pub open spec fn digits_value(s: Seq<char>) -> nat
    decreases s.len(),
{
    if s.len() == 0 {
        0
    } else {
        10 * digits_value(s.drop_last()) + digit_value(s.last())
    }
}

/// The digits in front of the first character that is none.
pub open spec fn leading_digits(s: Seq<char>) -> Seq<char>
    decreases s.len(),
{
    if s.len() == 0 {
        s
    } else {
        let before = leading_digits(s.drop_last());
        if before.len() == s.len() - 1 && is_digit(s.last()) {
            s
        } else {
            before
        }
    }
}

/// Why a text is no number of the wanted size.
#[derive(Debug, Clone, Copy, PartialEq, Eq, Structural)]
pub enum IntErrorKind {
    /// There is no character at all.
    Empty,
    /// A character is no digit, or there is only a sign.
    InvalidDigit,
    /// The number is too large.
    PosOverflow,
}

/// The number that a text stands for: an optional `+`, then digits only, at most `max`.
///
/// Digits that exceed `max` are reported before a character that is no digit behind them.
pub open spec fn parsed(s: Seq<char>, max: nat) -> Result<nat, IntErrorKind> {
    let digits = if s.len() > 1 && s.first() == '+' {
        s.drop_first()
    } else {
        s
    };
    let run = leading_digits(digits);
    if s.len() == 0 {
        Err(IntErrorKind::Empty)
    } else if digits_value(run) > max {
        Err(IntErrorKind::PosOverflow)
    } else if run.len() < digits.len() {
        Err(IntErrorKind::InvalidDigit)
    } else {
        Ok(digits_value(run))
    }
}

/// The leading digits are a prefix and digits, and what follows them is no digit.
pub proof fn lemma_leading_digits(s: Seq<char>)
    ensures
        leading_digits(s).len() <= s.len(),
        leading_digits(s) == s.take(leading_digits(s).len() as int),
        forall|i: int| 0 <= i < leading_digits(s).len() ==> is_digit(#[trigger] s[i]),
        leading_digits(s).len() < s.len() ==> !is_digit(s[leading_digits(s).len() as int]),
    decreases s.len(),
{
    if s.len() > 0 {
        let front = s.drop_last();
        lemma_leading_digits(front);
        let n = leading_digits(front).len();
        assert(front.take(n as int) == s.take(n as int));
        assert forall|i: int| 0 <= i < leading_digits(s).len() implies is_digit(#[trigger] s[i]) by {
            if i < n {
                assert(front[i] == s[i]);
            }
        }
        if n < front.len() {
            assert(front[n as int] == s[n as int]);
        }
        assert(s.take(s.len() as int) == s);
    }
}

/// A longer run of digits stands for a number at least as large.
proof fn lemma_digits_value_monotonic(s: Seq<char>, i: int, j: int)
    requires
        0 <= i <= j <= s.len(),
    ensures
        digits_value(s.take(i)) <= digits_value(s.take(j)),
    decreases j - i,
{
    if i < j {
        lemma_digits_value_monotonic(s, i, j - 1);
        assert(s.take(j).drop_last() == s.take(j - 1));
    }
}

/// Reads a decimal number of at most `max`.
pub fn parse_decimal(s: &str, max: u64) -> (r: Result<u64, IntErrorKind>)
    ensures
        match r {
            Ok(n) => parsed(s@, max as nat) == Ok::<nat, IntErrorKind>(n as nat),
            Err(e) => parsed(s@, max as nat) == Err::<nat, IntErrorKind>(e),
        },
{
    let chars = chars_of(s);
    if chars.len() == 0 {
        return Err(IntErrorKind::Empty);
    }
    let start: usize = if chars.len() > 1 && chars[0] == '+' {
        1
    } else {
        0
    };
    let ghost digits = s@.skip(start as int);
    let ghost run = leading_digits(digits);
    proof {
        lemma_leading_digits(digits);
        assert(s@.skip(0) == s@);
        assert(start == 1 ==> digits == s@.drop_first());
        assert(digits.take(0) == Seq::<char>::empty());
    }
    let mut value: u64 = 0;
    let mut i: usize = start;
    while i < chars.len()
        invariant
            chars@ == s@,
            start <= i <= chars.len(),
            digits == s@.skip(start as int),
            run == leading_digits(digits),
            run == digits.take(run.len() as int),
            run.len() <= digits.len(),
            forall|j: int| 0 <= j < run.len() ==> is_digit(#[trigger] digits[j]),
            run.len() < digits.len() ==> !is_digit(digits[run.len() as int]),
            i - start <= run.len(),
            value == digits_value(digits.take(i - start)),
            value <= max,
            s@.len() > 0,
            digits == (if s@.len() > 1 && s@.first() == '+' {
                s@.drop_first()
            } else {
                s@
            }),
        decreases chars.len() - i,
    {
        let c = chars[i];
        assert(c == digits[i - start]);
        if c < '0' || c > '9' {
            assert(run == digits.take(i - start));
            return Err(IntErrorKind::InvalidDigit);
        }
        let d: u64 = (c as u32 - '0' as u32) as u64;
        let next: u128 = value as u128 * 10 + d as u128;
        assert(digits.take(i - start + 1).drop_last() == digits.take(i - start));
        assert(next == digits_value(digits.take(i - start + 1)));
        if next > max as u128 {
            proof {
                lemma_digits_value_monotonic(digits, i - start + 1, run.len() as int);
            }
            return Err(IntErrorKind::PosOverflow);
        }
        value = next as u64;
        i += 1;
    }
    assert(digits.take(i - start) == digits);
    Ok(value)
}

/// The digit for a number below ten, as a text.
fn digit_text(n: u64) -> (r: &'static str)
    requires
        n < 10,
    ensures
        r@ == seq![digit(n as nat)],
{
    proof {
        reveal_strlit("0");
        reveal_strlit("1");
        reveal_strlit("2");
        reveal_strlit("3");
        reveal_strlit("4");
        reveal_strlit("5");
        reveal_strlit("6");
        reveal_strlit("7");
        reveal_strlit("8");
        reveal_strlit("9");
    }
    match n {
        0 => "0",
        1 => "1",
        2 => "2",
        3 => "3",
        4 => "4",
        5 => "5",
        6 => "6",
        7 => "7",
        8 => "8",
        _ => "9",
    }
}

/// Writes `n` in decimal.
pub fn decimal_string(n: u64) -> (r: String)
    ensures
        r@ == decimal(n as nat),
    decreases n,
{
    let mut r = if n < 10 {
        String::new()
    } else {
        decimal_string(n / 10)
    };
    r.append(digit_text(n % 10));
    assert(r@ == decimal(n as nat));
    r
}

/// A number is written with digits only, at least one, and never with a sign.
pub proof fn lemma_decimal_digits(n: nat)
    ensures
        decimal(n).len() > 0,
        forall|i: int| 0 <= i < decimal(n).len() ==> is_digit(#[trigger] decimal(n)[i]),
        is_ascii_chars(decimal(n)),
        leading_digits(decimal(n)) == decimal(n),
        digits_value(decimal(n)) == n,
    decreases n,
{
    let s = decimal(n);
    if n < 10 {
        assert(s.drop_last() == Seq::<char>::empty());
        assert(s.len() == 1 && is_digit(s[0]));
        assert(digits_value(s.drop_last()) == 0);
        assert(leading_digits(s.drop_last()).len() == 0);
    } else {
        lemma_decimal_digits(n / 10);
        assert(s.drop_last() == decimal(n / 10));
        assert forall|i: int| 0 <= i < s.len() implies is_digit(#[trigger] s[i]) by {
            if i < s.len() - 1 {
                assert(s[i] == decimal(n / 10)[i]);
            }
        }
    }
}

/// Reading back a number that was written in decimal gives the number.
pub proof fn law_decimal_read_back(n: nat, max: nat)
    requires
        n <= max,
    ensures
        parsed(decimal(n), max) == Ok::<nat, IntErrorKind>(n),
{
    lemma_decimal_digits(n);
    assert(is_digit(decimal(n)[0]));
}

/// Different numbers are written differently.
pub proof fn law_decimal_injective(m: nat, n: nat)
    requires
        decimal(m) == decimal(n),
    ensures
        m == n,
{
    lemma_decimal_digits(m);
    lemma_decimal_digits(n);
}

/// A number of two digits or more, and every number but zero, does not begin with a zero.
pub proof fn lemma_no_leading_zero(n: nat)
    ensures
        n >= 1 || decimal(n).len() > 1 ==> decimal(n)[0] != '0',
        n < 10 ==> decimal(n).len() == 1,
    decreases n,
{
    if n >= 10 {
        lemma_no_leading_zero(n / 10);
        lemma_decimal_digits(n / 10);
    }
}

/// Digits without a needless zero in front are the decimal form of the number that they stand for.
pub proof fn lemma_digits_are_decimal(s: Seq<char>)
    requires
        s.len() > 0,
        forall|i: int| 0 <= i < s.len() ==> is_digit(#[trigger] s[i]),
        s.len() > 1 ==> s[0] != '0',
    ensures
        decimal(digits_value(s)) == s,
        s[0] != '0' ==> digits_value(s) > 0,
    decreases s.len(),
{
    let front = s.drop_last();
    assert(is_digit(s[s.len() - 1]));
    if s.len() == 1 {
        assert(digits_value(front) == 0);
        assert(seq![s[0]] =~= s);
    } else {
        assert forall|i: int| 0 <= i < front.len() implies is_digit(#[trigger] front[i]) by {
            assert(front[i] == s[i]);
        }
        lemma_digits_are_decimal(front);
        assert(front[0] == s[0]);
        assert(front.push(s.last()) =~= s);
    }
}

} // verus!
