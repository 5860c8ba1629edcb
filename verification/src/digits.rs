//! Decimal numbers: how they are written and read.

use vstd::prelude::*;
use vstd::string::*;
use crate::text::{chars_of, trimmed, trimmed_start};

verus! {

/// The decimal digit `d`.
pub open spec fn digit(d: nat) -> char {
    ((48 + d) as u8) as char
}

/// `n` in decimal.
pub open spec fn decimal(n: nat) -> Seq<char>
    decreases n,
{
    if n < 10 {
        seq![digit(n)]
    } else {
        decimal(n / 10).push(digit(n % 10))
    }
}

/// `n` in decimal, with a minus sign where it is negative.
pub open spec fn signed_decimal(n: int) -> Seq<char> {
    if n < 0 {
        seq!['-'] + decimal((-n) as nat)
    } else {
        decimal(n as nat)
    }
}

pub open spec fn all_digits(s: Seq<char>) -> bool {
    forall|i: int| 0 <= i < s.len() ==> '0' <= #[trigger] s[i] <= '9'
}

/// The number that a sequence of decimal digits writes.
pub open spec fn digits_value(s: Seq<char>) -> nat
    decreases s.len(),
{
    if s.len() == 0 {
        0
    } else {
        (10 * digits_value(s.drop_last()) + (s.last() as nat - 48)) as nat
    }
}

/// The `u64` that `s` writes: an optional plus sign and decimal digits, nothing else,
/// and no more than a `u64` holds.
pub open spec fn unsigned_value(s: Seq<char>) -> Option<u64> {
    let digits = if s.len() > 0 && s.first() == '+' {
        s.drop_first()
    } else {
        s
    };
    if digits.len() > 0 && all_digits(digits) && digits_value(digits) <= u64::MAX {
        Some(digits_value(digits) as u64)
    } else {
        None
    }
}

/// `n` in decimal.
pub fn decimal_text(n: u64) -> (r: String)
    ensures
        r@ == decimal(n as nat),
    decreases n,
{
    let mut out = if n < 10 {
        String::new()
    } else {
        decimal_text(n / 10)
    };
    out.push((48 + (n % 10) as u8) as char);
    out
}

/// `n` in decimal, with a minus sign where it is negative.
pub fn signed_decimal_text(n: i64) -> (r: String)
    ensures
        r@ == signed_decimal(n as int),
{
    if n < 0 {
        let mut out = String::new();
        out.push('-');
        out.append(decimal_text((-(n as i128)) as u64).as_str());
        assert(out@ == seq!['-'] + decimal((-(n as int)) as nat));
        out
    } else {
        decimal_text(n as u64)
    }
}

proof fn lemma_digits_value_grows(s: Seq<char>, k: int)
    requires
        all_digits(s),
        0 <= k <= s.len(),
    ensures
        digits_value(s.take(k)) <= digits_value(s),
    decreases s.len(),
{
    if k == s.len() {
        assert(s.take(k) == s);
    } else {
        lemma_digits_value_grows(s.drop_last(), k);
        assert(s.drop_last().take(k) == s.take(k));
    }
}

/// The `u64` that `s` writes, if it writes one.
pub fn parse_unsigned(s: &str) -> (r: Option<u64>)
    ensures
        r == unsigned_value(s@),
{
    let chars = chars_of(s);
    let from: usize = if chars.len() > 0 && chars[0] == '+' {
        1
    } else {
        0
    };
    let ghost digits = s@.skip(from as int);
    assert(s@.skip(0) == s@);
    assert(from == 1 ==> digits == s@.drop_first());
    if from == chars.len() {
        return None;
    }
    let mut value: u64 = 0;
    let mut i: usize = from;
    while i < chars.len()
        invariant
            from <= i <= chars@.len(),
            chars@ == s@,
            digits == s@.skip(from as int),
            digits.len() > 0,
            unsigned_value(s@) == (if all_digits(digits) && digits_value(digits) <= u64::MAX {
                Some(digits_value(digits) as u64)
            } else {
                None
            }),
            all_digits(digits.take(i - from)),
            value == digits_value(digits.take(i - from)),
        decreases chars@.len() - i,
    {
        let c = chars[i];
        let ghost k = i - from;
        assert(digits[k] == c);
        if c < '0' || '9' < c {
            return None;
        }
        let d: u64 = (c as u32 - 48) as u64;
        assert(digits.take(k + 1).drop_last() == digits.take(k));
        assert(digits_value(digits.take(k + 1)) == 10 * value + d);
        if value > (u64::MAX - d) / 10 {
            proof {
                if all_digits(digits) {
                    lemma_digits_value_grows(digits, k + 1);
                }
            }
            return None;
        }
        value = 10 * value + d;
        i = i + 1;
        assert(all_digits(digits.take(k + 1))) by {
            assert forall|j: int| 0 <= j < k + 1 implies '0' <= #[trigger] digits.take(k + 1)[j] <= '9' by {
                if j < k {
                    assert(digits.take(k + 1)[j] == digits.take(k)[j]);
                }
            }
        }
    }
    assert(digits.take(i - from) == digits);
    Some(value)
}

/// What is written in decimal is read back as the same number.
pub proof fn decimal_reads_back(n: u64)
    ensures
        unsigned_value(decimal(n as nat)) == Some(n),
{
    lemma_decimal_digits(n as nat);
    assert('0' <= decimal(n as nat)[0]);
}

/// A number has no white space at its ends.
pub proof fn lemma_numbers_are_trimmed(s: Seq<char>)
    requires
        unsigned_value(s) is Some,
    ensures
        trimmed(s) == s,
{
    let digits = if s.first() == '+' {
        s.drop_first()
    } else {
        s
    };
    assert('0' <= digits[digits.len() - 1] <= '9');
    assert(s.first() == '+' || '0' <= s[0] <= '9');
    assert(trimmed_start(s) == s);
}

proof fn lemma_decimal_digits(n: nat)
    ensures
        decimal(n).len() > 0,
        all_digits(decimal(n)),
        digits_value(decimal(n)) == n,
    decreases n,
{
    if n < 10 {
        assert(decimal(n).drop_last() == Seq::<char>::empty());
        assert(digits_value(Seq::<char>::empty()) == 0);
        assert(digits_value(decimal(n)) == n);
    } else {
        lemma_decimal_digits(n / 10);
        assert(decimal(n).drop_last() == decimal(n / 10));
        assert(digits_value(decimal(n)) == 10 * (n / 10) + n % 10);
        assert forall|i: int| 0 <= i < decimal(n).len() implies '0' <= #[trigger] decimal(n)[i]
            <= '9' by {
            if i < decimal(n / 10).len() {
                assert(decimal(n)[i] == decimal(n / 10)[i]);
            }
        }
    }
}

/// A numeral is read digit by digit: a further digit makes ten times the number and the
/// digit of it, as long as a `u64` holds that, and nothing else may follow.
pub proof fn numerals_are_read_digit_by_digit(s: Seq<char>, c: char)
    requires
        unsigned_value(s) is Some,
    ensures
        unsigned_value(s.push(c)) == if '0' <= c <= '9' && 10 * unsigned_value(s)->0 + (c as int
            - '0' as int) <= u64::MAX {
            Some((10 * unsigned_value(s)->0 + (c as int - '0' as int)) as u64)
        } else {
            None
        },
{
    lemma_push_digit(s, c);
}

/// A numeral begins with a digit, or with a plus sign and a digit.
pub proof fn numerals_begin_with_a_digit(c: char)
    ensures
        unsigned_value(Seq::empty()) is None,
        unsigned_value(seq![c]) == if '0' <= c <= '9' {
            Some((c as int - '0' as int) as u64)
        } else {
            None
        },
        unsigned_value(seq!['+', c]) == if '0' <= c <= '9' {
            Some((c as int - '0' as int) as u64)
        } else {
            None
        },
{
    let one = seq![c];
    assert(one.drop_last() == Seq::<char>::empty());
    assert(digits_value(one.drop_last()) == 0);
    assert(seq!['+', c].drop_first() == one);
    assert(one.drop_first() == Seq::<char>::empty());
    if all_digits(one) {
        assert('0' <= one[0] <= '9');
    }
}

/// What is no numeral does not become one by what follows, but for nothing and a lone plus
/// sign.
pub proof fn what_is_no_numeral_stays_none(s: Seq<char>, c: char)
    requires
        unsigned_value(s) is None,
        s.len() > 0,
        s != seq!['+'],
    ensures
        unsigned_value(s.push(c)) is None,
{
    lemma_push_digit(s, c);
    let d = unsigned_digits(s);
    if d.len() == 0 {
        assert(s =~= seq!['+']);
    }
}

spec fn unsigned_digits(s: Seq<char>) -> Seq<char> {
    if s.len() > 0 && s.first() == '+' {
        s.drop_first()
    } else {
        s
    }
}

proof fn lemma_push_digit(s: Seq<char>, c: char)
    requires
        s.len() > 0,
    ensures
        unsigned_digits(s.push(c)) == unsigned_digits(s).push(c),
        all_digits(unsigned_digits(s.push(c))) <==> all_digits(unsigned_digits(s)) && '0' <= c
            <= '9',
        '0' <= c <= '9' ==> digits_value(unsigned_digits(s.push(c))) == 10 * digits_value(
            unsigned_digits(s),
        ) + (c as nat - 48),
{
    let d = unsigned_digits(s);
    let e = unsigned_digits(s.push(c));
    assert(e =~= d.push(c));
    assert(e.drop_last() == d);
    if all_digits(e) {
        assert(e[d.len() as int] == c);
        assert forall|i: int| 0 <= i < d.len() implies '0' <= #[trigger] d[i] <= '9' by {
            assert(e[i] == d[i]);
        }
    }
}

/// A number is written by its last digit behind the rest of them.
pub proof fn numbers_are_written_digit_by_digit(n: nat, d: nat)
    requires
        d < 10,
    ensures
        decimal(d) == seq![(('0' as nat + d) as u32) as char],
        n > 0 ==> decimal(10 * n + d) == decimal(n) + decimal(d),
        n > 0 ==> signed_decimal(-(n as int)) == seq!['-'] + decimal(n),
        signed_decimal(n as int) == decimal(n),
{
    assert((10 * n + d) / 10 == n);
    assert((10 * n + d) % 10 == d);
    if n > 0 {
        assert(decimal(n).push(digit(d)) =~= decimal(n) + seq![digit(d)]);
    }
}

} // verus!
