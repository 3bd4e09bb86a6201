//! Scalar type literals: the letter `b` and a decimal bit count.

use vstd::prelude::*;
use vstd::std_specs::iter::IteratorSpec;

verus! {

/// Whether `c` is one of the decimal digits `0` to `9`.
pub open spec fn is_digit(c: char) -> bool {
    48 <= c as u32 <= 57
}

/// The value of the decimal digit `c`.
pub open spec fn digit_value(c: char) -> nat {
    (c as u32 - 48) as nat
}

/// Whether every character of `s` is a decimal digit.
pub open spec fn all_digits(s: Seq<char>) -> bool {
    forall|i: int| 0 <= i < s.len() ==> is_digit(#[trigger] s[i])
}

/// The number that the decimal digits `s` write, most significant first.
pub open spec fn decimal_value(s: Seq<char>) -> nat
    decreases s.len(),
{
    if s.len() == 0 {
        0
    } else {
        decimal_value(s.drop_last()) * 10 + digit_value(s.last())
    }
}

/// The bit count that a scalar literal states: `text` is the letter `b` and
/// then one or more decimal digits, and their value lies between 1 and the
/// largest 32-bit number. Any other text states none.
pub open spec fn scalar_width(text: Seq<char>) -> Option<u32> {
    if text.len() >= 2 && text[0] == 'b' && all_digits(text.skip(1)) && 1 <= decimal_value(
        text.skip(1),
    ) <= u32::MAX {
        Some(decimal_value(text.skip(1)) as u32)
    } else {
        None
    }
}

/// More digits never write a smaller number.
pub proof fn lemma_decimal_value_grows(s: Seq<char>, k: int)
    requires
        0 <= k <= s.len(),
        all_digits(s),
    ensures
        decimal_value(s.take(k)) <= decimal_value(s),
    decreases s.len(),
{
    if k == s.len() {
        assert(s.take(k) =~= s);
    } else {
        assert(s.drop_last().take(k) =~= s.take(k));
        lemma_decimal_value_grows(s.drop_last(), k);
    }
}

/// Reads a scalar literal and returns the bit count it states, if any.
pub fn parse_scalar_width(text: &str) -> (width: Option<u32>)
    ensures
        width == scalar_width(text@),
{
    let mut rest = text.chars();
    match rest.next() {
        Some(c) => {
            if c != 'b' {
                return None;
            }
        },
        None => {
            return None;
        },
    }
    let ghost digits = text@.skip(1);
    let ghost mut n: int = 0;
    let mut seen: bool = false;
    let mut value: u32 = 0;
    loop
        invariant
            digits == text@.skip(1),
            text@.len() >= 1,
            text@[0] == 'b',
            0 <= n <= digits.len(),
            rest.remaining() == digits.skip(n),
            rest.obeys_prophetic_iter_laws(),
            all_digits(digits.take(n)),
            decimal_value(digits.take(n)) == value,
            seen <==> n > 0,
        ensures
            n == digits.len(),
        decreases digits.len() - n,
    {
        match rest.next() {
            None => {
                break ;
            },
            Some(c) => {
                let code: u32 = c as u32;
                assert(c == digits[n]);
                if code < 48 || code > 57 {
                    return None;
                }
                let ghost longer = digits.take(n + 1);
                proof {
                    assert(longer.drop_last() =~= digits.take(n));
                    assert(longer.last() == c);
                    assert(all_digits(longer));
                }
                let next = match value.checked_mul(10) {
                    Some(shifted) => shifted.checked_add(code - 48),
                    None => None,
                };
                match next {
                    Some(v) => {
                        value = v;
                    },
                    None => {
                        proof {
                            if all_digits(digits) {
                                lemma_decimal_value_grows(digits, n + 1);
                            }
                        }
                        return None;
                    },
                }
                proof {
                    n = n + 1;
                }
                seen = true;
            },
        }
    }
    proof {
        assert(digits.take(n) =~= digits);
    }
    if seen && value > 0 {
        Some(value)
    } else {
        None
    }
}

} // verus!
