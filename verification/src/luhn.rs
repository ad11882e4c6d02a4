//! The Luhn checksum validator.

use vstd::prelude::*;

use crate::digits::all_digits;
use crate::digits::digit_val;
use crate::digits::digits_of;
use crate::digits::extract_digits;

verus! {

/// The Luhn contribution of one digit value: doubled when the flag is
/// set, with nine subtracted when the doubled value exceeds nine.
pub open spec fn luhn_digit(d: int, dbl: bool) -> int {
    if dbl {
        if 2 * d > 9 {
            2 * d - 9
        } else {
            2 * d
        }
    } else {
        d
    }
}

/// The Luhn sum of a digit sequence: digits are taken from the rightmost
/// to the leftmost with an alternating doubling flag that starts clear on
/// the rightmost digit, so a digit is doubled exactly when its distance
/// from the right end is odd.
pub open spec fn luhn_sum(s: Seq<char>) -> int
    decreases s.len(),
{
    if s.len() == 0 {
        0
    } else {
        luhn_digit(digit_val(s[0]), (s.len() - 1) % 2 == 1) + luhn_sum(s.drop_first())
    }
}

/// A digit sequence passes the Luhn check when it is non-empty and its
/// Luhn sum is divisible by ten.
pub open spec fn luhn_valid(s: Seq<char>) -> bool {
    s.len() > 0 && luhn_sum(s) % 10 == 0
}

/// Runs the Luhn check over a string that is already all digits.
pub fn luhn_check_digits(s: &str) -> (r: bool)
    requires
        all_digits(s@),
    ensures
        r == luhn_valid(s@),
{
    let n = s.unicode_len();
    if n == 0 {
        return false;
    }
    let mut sum: u128 = 0;
    let mut dbl = false;
    let mut i: usize = n;
    while i > 0
        invariant
            0 <= i <= n,
            n == s@.len(),
            all_digits(s@),
            dbl == (((n - i) % 2) == 1),
            sum == luhn_sum(s@.subrange(i as int, n as int)),
            sum <= 9 * (n - i),
        decreases i,
    {
        i -= 1;
        let c = s.get_char(i);
        let d = (c as u32) - 48;
        let mut val = d;
        if dbl {
            val = val * 2;
            if val > 9 {
                val -= 9;
            }
        }
        proof {
            let tail = s@.subrange(i + 1, n as int);
            let whole = s@.subrange(i as int, n as int);
            assert(whole.drop_first() =~= tail);
            assert(whole[0] == s@[i as int]);
            assert(luhn_sum(whole) == luhn_digit(digit_val(s@[i as int]), (n - i - 1) % 2 == 1)
                + luhn_sum(tail));
        }
        sum = sum + val as u128;
        dbl = !dbl;
    }
    proof {
        assert(s@.subrange(0, n as int) =~= s@);
    }
    sum % 10 == 0
}

/// Validates a payment-card number given as free-form text: the decimal
/// digits are extracted first, an empty digit sequence fails, and
/// otherwise the Luhn checksum decides.
pub fn luhn_check(number: &str) -> (r: bool)
    ensures
        r == luhn_valid(digits_of(number@)),
        digits_of(number@).len() == 0 ==> r == false,
{
    let d = extract_digits(number);
    luhn_check_digits(d.as_str())
}

} // verus!
