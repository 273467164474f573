//! Decimal notation: from the text of an integer literal to its value.
use crate::text::{chars_of, is_digit};
use vstd::prelude::*;

verus! {

/// The value of a decimal digit; 0 for any other character.
pub open spec fn digit_value(c: char) -> nat {
    if is_digit(c) {
        (c as int - '0' as int) as nat
    } else {
        0
    }
}

/// The number that the digits `s` write in decimal, the first digit being the
/// most significant.
pub open spec fn digits_value(s: Seq<char>) -> nat
    decreases s.len(),
{
    if s.len() == 0 {
        0
    } else {
        10 * digits_value(s.drop_last()) + digit_value(s.last())
    }
}

pub open spec fn all_digits(s: Seq<char>) -> bool {
    forall|i: int| 0 <= i < s.len() ==> is_digit(#[trigger] s[i])
}

/// The integer that `s` writes: an optional sign, `+` or `-`, and then one
/// digit or more. Any other text writes no integer.
pub open spec fn int_value(s: Seq<char>) -> Option<int> {
    let signed = s.len() > 0 && (s[0] == '-' || s[0] == '+');
    let digits = if signed {
        s.drop_first()
    } else {
        s
    };
    if digits.len() > 0 && all_digits(digits) {
        if s[0] == '-' {
            Some(-(digits_value(digits) as int))
        } else {
            Some(digits_value(digits) as int)
        }
    } else {
        None
    }
}

/// The 64-bit signed integer that `s` writes, if it writes an integer and
/// that integer fits.
pub open spec fn i64_value(s: Seq<char>) -> Option<i64> {
    match int_value(s) {
        Some(v) => if i64::MIN <= v <= i64::MAX {
            Some(v as i64)
        } else {
            None
        },
        None => None,
    }
}

/// The value of a text never falls when more characters are written behind
/// it.
pub proof fn lemma_digits_value_grows(s: Seq<char>, n: int)
    requires
        0 <= n <= s.len(),
    ensures
        digits_value(s.take(n)) <= digits_value(s),
    decreases s.len(),
{
    if n == s.len() {
        assert(s.take(n) =~= s);
    } else {
        assert(s.drop_last().take(n) =~= s.take(n));
        lemma_digits_value_grows(s.drop_last(), n);
    }
}

/// Reads `s` as a 64-bit signed integer in decimal.
pub fn parse_i64(s: &str) -> (value: Option<i64>)
    ensures
        value == i64_value(s@),
{
    let chars = chars_of(s);
    let n = chars.len();
    if n == 0 {
        return None;
    }
    let negative = chars[0] == '-';
    let start: usize = if negative || chars[0] == '+' {
        1
    } else {
        0
    };
    let ghost digits = chars@.skip(start as int);
    assert(digits =~= if start == 1 {
        s@.drop_first()
    } else {
        s@
    });
    if start == n {
        return None;
    }
    let limit: u128 = if negative {
        9223372036854775808
    } else {
        9223372036854775807
    };
    let mut magnitude: u128 = 0;
    let mut i: usize = start;
    assert(digits.take(0) =~= Seq::<char>::empty());
    while i < n
        invariant
            start <= i <= n,
            n == chars@.len(),
            chars@ == s@,
            n > 0,
            negative == (chars@[0] == '-'),
            start == if chars@[0] == '-' || chars@[0] == '+' {
                1usize
            } else {
                0usize
            },
            limit == if negative {
                9223372036854775808u128
            } else {
                9223372036854775807u128
            },
            digits == chars@.skip(start as int),
            digits == if start == 1 {
                s@.drop_first()
            } else {
                s@
            },
            all_digits(digits.take(i - start)),
            magnitude == digits_value(digits.take(i - start)),
            magnitude <= limit <= 9223372036854775808,
        decreases n - i,
    {
        let c = chars[i];
        let ghost read = digits.take(i - start + 1);
        proof {
            assert(read.drop_last() =~= digits.take(i - start));
            assert(read.last() == c);
            assert(digits[i - start] == c);
        }
        if !('0' <= c && c <= '9') {
            return None;
        }
        magnitude = magnitude * 10 + (c as u32 - '0' as u32) as u128;
        if magnitude > limit {
            proof {
                lemma_digits_value_grows(digits, i - start + 1);
            }
            return None;
        }
        assert forall|k: int| 0 <= k < read.len() implies is_digit(#[trigger] read[k]) by {
            if k < read.len() - 1 {
                assert(read[k] == digits.take(i - start)[k]);
            }
        }
        i += 1;
    }
    assert(digits.take(n - start) =~= digits);
    if negative {
        let v: i128 = -(magnitude as i128);
        Some(v as i64)
    } else {
        Some(magnitude as i64)
    }
}

} // verus!
