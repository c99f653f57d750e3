//! Decimal numerals typed into a text field.
//!
//! A numeral is an optional `+` followed by one or more of the digits `0` to
//! `9`, and nothing else: no sign `-`, no blank. It stands for a number only
//! if that number fits in 32 bits.

use vstd::prelude::*;
use vstd::std_specs::iter::IteratorSpec;

verus! {

/// Whether `c` is one of the digits `0` to `9`.
pub open spec fn is_digit(c: char) -> bool {
    '0' <= c <= '9'
}

/// The number that the digit `c` stands for.
pub open spec fn digit_value(c: char) -> int {
    c as int - '0' as int
}

/// Whether `s` holds digits only.
pub open spec fn all_digits(s: Seq<char>) -> bool {
    forall|i: int| 0 <= i < s.len() ==> is_digit(#[trigger] s[i])
}

/// The number that the digits of `s` stand for, read in base ten.
pub open spec fn digits_value(s: Seq<char>) -> int
    decreases s.len(),
{
    if s.len() == 0 {
        0
    } else {
        10 * digits_value(s.drop_last()) + digit_value(s.last())
    }
}

/// `s` without a leading `+`.
pub open spec fn unsigned_part(s: Seq<char>) -> Seq<char> {
    if s.len() > 0 && s[0] == '+' {
        s.drop_first()
    } else {
        s
    }
}

/// The number that `s` stands for, if `s` is a numeral of a number below
/// `2^32`.
pub open spec fn numeral_value(s: Seq<char>) -> Option<u32> {
    let digits = unsigned_part(s);
    if digits.len() > 0 && all_digits(digits) && digits_value(digits) <= u32::MAX {
        Some(digits_value(digits) as u32)
    } else {
        None
    }
}

/// Digits stand for a number that is not negative, and more digits never
/// stand for less.
proof fn lemma_digits_value_grows(s: Seq<char>, k: int)
    requires
        all_digits(s),
        0 <= k <= s.len(),
    ensures
        0 <= digits_value(s.take(k)) <= digits_value(s),
    decreases s.len() - k,
{
    lemma_digits_value_nonnegative(s.take(k));
    if k == s.len() {
        assert(s.take(k) =~= s);
    } else {
        lemma_digits_value_grows(s, k + 1);
        assert(s.take(k + 1).drop_last() =~= s.take(k));
    }
}

/// Digits stand for a number that is not negative.
proof fn lemma_digits_value_nonnegative(s: Seq<char>)
    requires
        all_digits(s),
    ensures
        0 <= digits_value(s),
    decreases s.len(),
{
    if s.len() > 0 {
        lemma_digits_value_nonnegative(s.drop_last());
    }
}

/// Reads `text` as a numeral.
pub fn parse_number(text: &str) -> (r: Option<u32>)
    ensures
        r == numeral_value(text@),
{
    let mut value: u32 = 0;
    let mut any_digit = false;
    let mut signed = false;
    let mut chars = text.chars();
    let ghost all = text@;
    let ghost digits = unsigned_part(all);
    let ghost mut seen: int = 0;
    let ghost mut count: int = 0;
    loop
        invariant
            all == text@,
            digits == unsigned_part(all),
            chars.remaining() == all.skip(seen),
            0 <= count <= seen <= all.len(),
            seen == count + if signed { 1int } else { 0 },
            signed ==> all.len() > 0 && all[0] == '+',
            !signed && seen > 0 ==> all[0] != '+',
            any_digit <==> count > 0,
            all_digits(digits.take(count)),
            value == digits_value(digits.take(count)),
            chars.obeys_prophetic_iter_laws(),
            chars.decrease() is Some,
        decreases chars.decrease()->0,
    {
        let next = chars.next();
        match next {
            None => {
                proof {
                    assert(seen == all.len());
                    assert(digits.take(count) =~= digits);
                }
                return if any_digit {
                    Some(value)
                } else {
                    None
                };
            },
            Some(c) => {
                proof {
                    assert(c == all[seen]);
                    assert(all.skip(seen).drop_first() =~= all.skip(seen + 1));
                }
                if c == '+' && !any_digit && !signed {
                    signed = true;
                    proof {
                        seen = seen + 1;
                    }
                } else if '0' <= c && c <= '9' {
                    let digit: u32 = c as u32 - '0' as u32;
                    proof {
                        assert(digits[count] == c);
                        assert(digits.take(count + 1).drop_last() =~= digits.take(count));
                        assert(digits.take(count + 1).last() == c);
                        assert(digits_value(digits.take(count + 1)) == 10 * value + digit);
                    }
                    let sum = match value.checked_mul(10) {
                        Some(tens) => tens.checked_add(digit),
                        None => None,
                    };
                    match sum {
                        Some(v) => {
                            value = v;
                            any_digit = true;
                            proof {
                                seen = seen + 1;
                                count = count + 1;
                            }
                        },
                        None => {
                            proof {
                                if all_digits(digits) {
                                    lemma_digits_value_grows(digits, count + 1);
                                }
                            }
                            return None;
                        },
                    }
                } else {
                    proof {
                        assert(digits[count] == c);
                        assert(!is_digit(c));
                    }
                    return None;
                }
            },
        }
    }
}

} // verus!
