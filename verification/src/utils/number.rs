//! Integers written in decimal.

use vstd::prelude::*;
use vstd::std_specs::iter::IteratorSpec;

verus! {

/// The decimal digits.
pub open spec fn is_digit(c: char) -> bool {
    '0' <= c <= '9'
}

/// The number that a string of decimal digits denotes.
pub open spec fn decimal_value(digits: Seq<char>) -> int
    decreases digits.len(),
{
    if digits.len() == 0 {
        0
    } else {
        decimal_value(digits.drop_last()) * 10 + (digits.last() as int - '0' as int)
    }
}

/// Tells whether `s` holds decimal digits only.
pub open spec fn all_digits(s: Seq<char>) -> bool {
    forall|i: int| 0 <= i < s.len() ==> is_digit(#[trigger] s[i])
}

/// The number that `s` denotes where it is one or more decimal digits.
pub open spec fn unsigned_decimal(s: Seq<char>) -> Option<int> {
    if s.len() > 0 && all_digits(s) {
        Some(decimal_value(s))
    } else {
        None
    }
}

/// The integer that `s` denotes in decimal: an optional `+` or `-`, then one
/// or more digits and nothing else.
pub open spec fn decimal_int(s: Seq<char>) -> Option<int> {
    if s.len() > 0 && s[0] == '-' {
        match unsigned_decimal(s.drop_first()) {
            Some(v) => Some(-v),
            None => None,
        }
    } else if s.len() > 0 && s[0] == '+' {
        unsigned_decimal(s.drop_first())
    } else {
        unsigned_decimal(s)
    }
}

/// The 32-bit integer that `s` denotes in decimal. `None` where `s` is no
/// decimal integer or the number does not fit.
pub open spec fn decimal_i32(s: Seq<char>) -> Option<i32> {
    match decimal_int(s) {
        Some(v) => if i32::MIN <= v <= i32::MAX {
            Some(v as i32)
        } else {
            None
        },
        None => None,
    }
}

/// A string of digits denotes no less than any of its prefixes.
proof fn lemma_decimal_value_grows(digits: Seq<char>, n: int)
    requires
        0 <= n <= digits.len(),
        all_digits(digits),
    ensures
        0 <= decimal_value(digits.take(n)) <= decimal_value(digits),
    decreases digits.len(),
{
    if n == digits.len() {
        assert(digits.take(n) =~= digits);
        if n > 0 {
            lemma_decimal_value_grows(digits.drop_last(), n - 1);
            assert(is_digit(digits[n - 1]));
        }
    } else {
        let shorter = digits.drop_last();
        lemma_decimal_value_grows(shorter, n);
        assert(shorter.take(n) =~= digits.take(n));
        assert(is_digit(digits[digits.len() - 1]));
    }
}

/// The value of a decimal digit.
fn digit_of(c: char) -> (d: i64)
    requires
        is_digit(c),
    ensures
        d == c as int - '0' as int,
        0 <= d <= 9,
{
    (c as u32 - '0' as u32) as i64
}

/// Reads a 32-bit integer written in decimal.
pub fn parse_i32(s: &str) -> (r: Option<i32>)
    ensures
        r == decimal_i32(s@),
{
    let mut iter = s.chars();
    let mut negative = false;
    let mut magnitude: i64 = 0;
    let mut any_digit = false;
    let ghost mut read: int = 1;
    let ghost mut start: int = 1;
    assert(iter.remaining() == s@);
    match iter.next() {
        None => {
            return None;
        },
        Some(c) => {
            if c == '-' {
                negative = true;
            } else if c == '+' {
            } else if '0' <= c && c <= '9' {
                magnitude = digit_of(c);
                any_digit = true;
                proof {
                    start = 0;
                    assert(s@.subrange(0, 1).drop_last() =~= Seq::<char>::empty());
                    reveal_with_fuel(decimal_value, 2);
                }
            } else {
                assert(c == s@[0]);
                assert(!is_digit(s@[0]));
                return None;
            }
        },
    }
    let ghost digits = s@.skip(start);
    assert(s@.skip(0) =~= s@);
    assert(s@.subrange(1, 1) =~= Seq::<char>::empty());
    loop
        invariant
            start <= read <= s@.len(),
            0 <= start <= 1,
            s@.len() > 0,
            digits == s@.skip(start),
            digits == if s@[0] == '-' || s@[0] == '+' {
                s@.drop_first()
            } else {
                s@
            },
            negative == (s@[0] == '-'),
            iter.remaining() == s@.skip(read),
            any_digit == (read > start),
            forall|i: int| start <= i < read ==> is_digit(#[trigger] s@[i]),
            magnitude == decimal_value(s@.subrange(start, read)),
            0 <= magnitude <= 0x8000_0000,
        ensures
            read == s@.len(),
        decreases s@.len() - read,
    {
        match iter.next() {
            None => {
                break ;
            },
            Some(c) => {
                assert(c == s@[read]);
                assert(c == digits[read - start]);
                if !('0' <= c && c <= '9') {
                    assert(!is_digit(digits[read - start]));
                    return None;
                }
                let d = digit_of(c);
                proof {
                    assert(s@.subrange(start, read + 1).drop_last() =~= s@.subrange(start, read));
                }
                magnitude = magnitude * 10 + d;
                proof {
                    read = read + 1;
                }
                any_digit = true;
                if magnitude > 0x8000_0000 {
                    proof {
                        if all_digits(digits) {
                            lemma_decimal_value_grows(digits, read - start);
                            assert(digits.take(read - start) =~= s@.subrange(start, read));
                        }
                    }
                    return None;
                }
            },
        }
    }
    proof {
        assert(s@.subrange(start, read) =~= digits);
        assert forall|i: int| 0 <= i < digits.len() implies is_digit(#[trigger] digits[i]) by {
            assert(digits[i] == s@[i + start]);
        }
        assert(all_digits(digits));
    }
    if !any_digit {
        None
    } else if negative {
        Some((0 - magnitude) as i32)
    } else if magnitude > 0x7fff_ffff {
        None
    } else {
        Some(magnitude as i32)
    }
}

} // verus!
