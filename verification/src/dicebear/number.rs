//! Number formatting that matches DiceBear's cross-language output:
//! at most five decimal places, trailing zeros trimmed, no exponential
//! notation.
//!
//! The rounding of a float to a multiple of `1e-5` happens where the float
//! lives; this module renders the rounded value, given as its sign, integer
//! part and five-digit fraction.

use vstd::prelude::*;

use crate::text::{decimal_digits, push_char, push_decimal};

verus! {

/// The five decimal digits of a fraction below `100000`, most significant
/// first.
pub open spec fn fraction_digits(fraction: nat) -> Seq<char> {
    Seq::new(5, |i: int| ((((fraction / pow10((4 - i) as nat)) % 10) + 48) as u32) as char)
}

/// `10^e`.
pub open spec fn pow10(e: nat) -> nat
    decreases e,
{
    if e == 0 {
        1
    } else {
        10 * pow10((e - 1) as nat)
    }
}

/// `digits` without its trailing `'0'` characters.
pub open spec fn trim_trailing_zeros(digits: Seq<char>) -> Seq<char>
    decreases digits.len(),
{
    if digits.len() > 0 && digits.last() == '0' {
        trim_trailing_zeros(digits.drop_last())
    } else {
        digits
    }
}

/// The text of the number `(-1)^negative * (integer + fraction / 100000)`:
/// an optional `-`, the integer digits, then (for a nonzero fraction) a
/// `.` and the fraction digits without trailing zeros.
pub open spec fn scaled_text(negative: bool, integer: nat, fraction: nat) -> Seq<char> {
    let sign = if negative { seq!['-'] } else { Seq::empty() };
    let body = sign + decimal_digits(integer);
    if fraction == 0 {
        body
    } else {
        body + seq!['.'] + trim_trailing_zeros(fraction_digits(fraction))
    }
}

/// Renders a number already rounded to five decimal places, given as its
/// sign, integer part and five-digit fraction (`fraction < 100000`).
pub fn format_scaled(negative: bool, integer: u64, fraction: u32) -> (s: String)
    requires
        fraction < 100_000,
    ensures
        s@ == scaled_text(negative, integer as nat, fraction as nat),
{
    let mut s = String::new();
    if negative {
        push_char(&mut s, '-');
    }
    push_decimal(&mut s, integer);
    let ghost sign: Seq<char> = if negative { seq!['-'] } else { Seq::empty() };
    assert(s@ =~= sign + decimal_digits(integer as nat));
    if fraction == 0 {
        return s;
    }
    let mut digits: Vec<char> = Vec::new();
    let mut i: u32 = 0;
    let mut div: u32 = 10_000;
    proof {
        reveal_with_fuel(pow10, 5);
    }
    while i < 5
        invariant
            i <= 5,
            digits@.len() == i,
            div as nat == pow10((4 - i) as nat) || i == 5,
            i < 5 ==> div as nat == pow10((4 - i) as nat),
            forall|k: int| 0 <= k < i ==> #[trigger] digits@[k] == fraction_digits(fraction as nat)[k],
            pow10(0) == 1,
            pow10(1) == 10,
            pow10(2) == 100,
            pow10(3) == 1000,
            pow10(4) == 10000,
        decreases 5 - i,
    {
        let d = (fraction / div) % 10;
        let c = match d {
            0 => '0',
            1 => '1',
            2 => '2',
            3 => '3',
            4 => '4',
            5 => '5',
            6 => '6',
            7 => '7',
            8 => '8',
            _ => '9',
        };
        assert(c == (((d + 48) as u32) as char));
        digits.push(c);
        i = i + 1;
        if i < 5 {
            div = div / 10;
        }
    }
    assert(digits@ =~= fraction_digits(fraction as nat));
    let mut end: usize = 5;
    assert(digits@.take(5) =~= digits@);
    while end > 0 && digits[end - 1] == '0'
        invariant
            end <= 5,
            digits@.len() == 5,
            trim_trailing_zeros(digits@) == trim_trailing_zeros(digits@.take(end as int)),
        decreases end,
    {
        assert(digits@.take(end as int).drop_last() =~= digits@.take(end - 1));
        end = end - 1;
    }
    assert(trim_trailing_zeros(digits@.take(end as int)) == digits@.take(end as int));
    push_char(&mut s, '.');
    let mut k: usize = 0;
    let ghost before = s@;
    while k < end
        invariant
            k <= end <= 5,
            digits@.len() == 5,
            s@ == before + digits@.take(k as int),
        decreases end - k,
    {
        push_char(&mut s, digits[k]);
        assert(digits@.take(k + 1) =~= digits@.take(k as int).push(digits@[k as int]));
        k = k + 1;
    }
    s
}

} // verus!
