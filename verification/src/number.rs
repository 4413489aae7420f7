//! Numbers in base ten: reading them from text and writing them out.

use vstd::prelude::*;
use crate::text::{chars_of, is_digit, push_char};

verus! {

/// The digit that stands for `d`, for `d` below ten.
pub open spec fn digit_char(d: nat) -> char {
    ('0' as int + d) as char
}

/// The number that the digit `c` stands for.
pub open spec fn digit_value(c: char) -> nat {
    (c as int - '0' as int) as nat
}

/// The number that a text of digits stands for in base ten.
pub open spec fn digits_value(digits: Seq<char>) -> nat
    decreases digits.len(),
{
    if digits.len() == 0 {
        0
    } else {
        digits_value(digits.drop_last()) * 10 + digit_value(digits.last())
    }
}

/// `n` written in base ten, without leading zeros.
pub open spec fn decimal(n: nat) -> Seq<char>
    decreases n,
{
    if n < 10 {
        seq![digit_char(n)]
    } else {
        decimal(n / 10).push(digit_char(n % 10))
    }
}

/// A longer run of digits stands for no smaller a number.
pub proof fn lemma_digits_value_grows(digits: Seq<char>, j: int, k: int)
    requires
        0 <= j <= k <= digits.len(),
    ensures
        digits_value(digits.take(j)) <= digits_value(digits.take(k)),
    decreases k - j,
{
    if j < k {
        lemma_digits_value_grows(digits, j, k - 1);
        assert(digits.take(k).drop_last() =~= digits.take(k - 1));
    }
}

/// `n` in base ten is a run of digits that stands for `n`, and starts with
/// `0` only where `n` is zero.
pub proof fn lemma_decimal_digits(n: nat)
    ensures
        decimal(n).len() >= 1,
        forall|i: int| 0 <= i < decimal(n).len() ==> is_digit(#[trigger] decimal(n)[i]),
        decimal(n)[0] == '0' ==> n == 0,
        digits_value(decimal(n)) == n,
    decreases n,
{
    if n < 10 {
        assert(decimal(n).drop_last() =~= Seq::<char>::empty());
        assert(digits_value(decimal(n).drop_last()) == 0);
        assert(digit_value(digit_char(n)) == n);
    } else {
        lemma_decimal_digits(n / 10);
        assert(decimal(n).drop_last() =~= decimal(n / 10));
        assert(digit_value(digit_char(n % 10)) == n % 10);
    }
}

/// A run of digits without a leading zero is its number in base ten.
pub proof fn lemma_decimal_of_digits(digits: Seq<char>)
    requires
        digits.len() >= 1,
        forall|i: int| 0 <= i < digits.len() ==> is_digit(#[trigger] digits[i]),
        digits.len() == 1 || digits[0] != '0',
    ensures
        decimal(digits_value(digits)) == digits,
    decreases digits.len(),
{
    let init = digits.drop_last();
    assert(digit_char(digit_value(digits.last())) == digits.last());
    if digits.len() == 1 {
        assert(init =~= Seq::<char>::empty());
        assert(digits_value(init) == 0);
        assert(digits_value(digits) == digit_value(digits.last()));
        assert(decimal(digits_value(digits)) =~= digits);
    } else {
        assert(init[0] == digits[0]);
        lemma_decimal_of_digits(init);
        lemma_digits_value_grows(init, 1, init.len() as int);
        assert(init.take(init.len() as int) =~= init);
        assert(init.take(1).drop_last() =~= Seq::<char>::empty());
        assert(digits_value(init.take(1).drop_last()) == 0);
        assert(init.take(1).last() == init[0]);
        assert(digits_value(init.take(1)) == digit_value(init[0]));
        assert(digits_value(init) >= 1);
        assert(decimal(digits_value(digits)) =~= digits);
    }
}

/// Appends `n` in base ten to `s`.
pub fn push_decimal(s: &mut String, n: usize)
    ensures
        final(s)@ == old(s)@ + decimal(n as nat),
    decreases n,
{
    if n >= 10 {
        push_decimal(s, n / 10);
    }
    let d = (n % 10) as u8;
    push_char(s, (48u8 + d) as char);
    proof {
        if n >= 10 {
            assert(final(s)@ =~= old(s)@ + decimal((n / 10) as nat).push(digit_char((n % 10) as nat)));
        } else {
            assert(final(s)@ =~= old(s)@ + seq![digit_char(n as nat)]);
        }
    }
}

/// `text` without the `+` that it may start with.
pub open spec fn without_plus(text: Seq<char>) -> Seq<char> {
    if text.len() > 0 && text[0] == '+' {
        text.skip(1)
    } else {
        text
    }
}

/// Whether `text` is made of digits alone.
pub open spec fn all_digits(text: Seq<char>) -> bool {
    forall|i: int| 0 <= i < text.len() ==> is_digit(#[trigger] text[i])
}

/// The number up to `max` that `text` stands for: an optional `+`, then
/// one or more digits, as the integer types read a number from a string.
/// `None` where `text` is not of that form or the number is beyond `max`.
pub open spec fn number_from_text(text: Seq<char>, max: nat) -> Option<nat> {
    let digits = without_plus(text);
    if digits.len() > 0 && all_digits(digits) && digits_value(digits) <= max {
        Some(digits_value(digits))
    } else {
        None
    }
}

/// Reads a number up to `max`: an optional `+`, then one or more digits.
pub fn parse_number(text: &str, max: usize) -> (r: Option<usize>)
    ensures
        match r {
            Some(n) => number_from_text(text@, max as nat) == Some(n as nat),
            None => number_from_text(text@, max as nat) is None,
        },
{
    let v = chars_of(text);
    let start: usize = if v.len() > 0 && v[0] == '+' {
        1
    } else {
        0
    };
    let ghost digits = without_plus(v@);
    assert(v@.skip(0) =~= v@);
    if start == v.len() {
        return None;
    }
    let mut number: usize = 0;
    let mut over = false;
    let mut i: usize = start;
    while i < v.len()
        invariant
            start <= i <= v.len(),
            start < v.len(),
            v@ == text@,
            digits == without_plus(v@),
            digits == v@.skip(start as int),
            forall|k: int| 0 <= k < i - start ==> is_digit(#[trigger] digits[k]),
            over ==> digits_value(digits.take(i - start)) > max,
            !over ==> number == digits_value(digits.take(i - start)) && number <= max,
        decreases v.len() - i,
    {
        let c = v[i];
        if !(c >= '0' && c <= '9') {
            assert(!is_digit(digits[i - start]));
            return None;
        }
        proof {
            assert(digits.take(i - start + 1).drop_last() =~= digits.take(i - start));
            assert(digits.take(i - start + 1).last() == c);
        }
        if !over {
            let d = (c as u8 - 48u8) as usize;
            let next = match number.checked_mul(10) {
                Some(tens) => tens.checked_add(d),
                None => None,
            };
            match next {
                Some(n) if n <= max => {
                    number = n;
                },
                _ => {
                    over = true;
                },
            }
        }
        i += 1;
    }
    assert(digits.take(digits.len() as int) =~= digits);
    if over {
        None
    } else {
        Some(number)
    }
}

} // verus!
