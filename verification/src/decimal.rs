//! Numbers as strings of decimal digits, and the window that the
//! middle-square method cuts out of such a string.
//!
//! The method is stated on digits: write the number down, drop the low
//! digits, keep a run of what is left. This module holds that statement, the
//! proof that the run is a quotient and a remainder by powers of ten, and the
//! code that computes it that way.

use vstd::prelude::*;
use vstd::arithmetic::div_mod::{lemma_div_denominator, lemma_mod_breakdown, lemma_small_mod};

verus! {

/// Ten to the power `e`.
pub open spec fn pow10(e: nat) -> nat
    decreases e,
{
    if e == 0 {
        1
    } else {
        10 * pow10((e - 1) as nat)
    }
}

/// `n` written in base ten, most significant digit first, without leading
/// zeros; zero is written as the single digit 0.
pub open spec fn decimal_digits(n: nat) -> Seq<nat>
    decreases n,
{
    if n < 10 {
        seq![n]
    } else {
        decimal_digits(n / 10).push(n % 10)
    }
}

/// Every entry of `digits` is a decimal digit.
pub open spec fn is_decimal(digits: Seq<nat>) -> bool {
    forall|i: int| 0 <= i < digits.len() ==> digits[i] < 10
}

/// The number that `digits` spell, most significant digit first. Leading
/// zeros do not count, and the empty string spells zero.
pub open spec fn decimal_value(digits: Seq<nat>) -> nat
    decreases digits.len(),
{
    if digits.len() == 0 {
        0
    } else {
        10 * decimal_value(digits.drop_last()) + digits.last()
    }
}

/// How many low digits the middle-square method drops for a window of `width`
/// digits: half the width, rounded up.
pub open spec fn dropped_digits(width: nat) -> nat {
    (width + 1) / 2
}

/// The window of the middle-square method: the run of at most `width` digits
/// of `rendered` that ends `dropped_digits(width)` digits before its end.
/// Where fewer than `width` digits are left, the run starts at the first
/// digit; where none is left, it is empty.
pub open spec fn middle_window(rendered: Seq<nat>, width: nat) -> Seq<nat> {
    let dropped = dropped_digits(width);
    let end: int = if rendered.len() >= dropped {
        rendered.len() - dropped
    } else {
        0
    };
    let start: int = if end >= width {
        end - width
    } else {
        0
    };
    rendered.subrange(start, end)
}

/// The number in the middle of `n`: the digits of the window of `n` as
/// written in base ten, read as a number again.
pub open spec fn middle_digits_of(n: nat, width: nat) -> nat {
    decimal_value(middle_window(decimal_digits(n), width))
}

/// Powers of ten are positive.
pub proof fn lemma_pow10_positive(e: nat)
    ensures
        pow10(e) > 0,
    decreases e,
{
    if e > 0 {
        lemma_pow10_positive((e - 1) as nat);
    }
}

/// Powers of ten grow with the exponent.
pub proof fn lemma_pow10_increases(a: nat, b: nat)
    requires
        a <= b,
    ensures
        pow10(a) <= pow10(b),
    decreases b,
{
    if a < b {
        lemma_pow10_increases(a, (b - 1) as nat);
        lemma_pow10_positive((b - 1) as nat);
    }
}

/// A number is written with at least one digit, and each of them is a
/// decimal digit.
pub proof fn lemma_digits_are_decimal(n: nat)
    ensures
        decimal_digits(n).len() >= 1,
        is_decimal(decimal_digits(n)),
    decreases n,
{
    if n >= 10 {
        lemma_digits_are_decimal(n / 10);
    }
}

/// Reading back what was written gives the number.
pub proof fn lemma_value_of_digits(n: nat)
    ensures
        decimal_value(decimal_digits(n)) == n,
    decreases n,
{
    if n < 10 {
        assert(seq![n].drop_last() =~= Seq::<nat>::empty());
        assert(decimal_value(Seq::<nat>::empty()) == 0);
    } else {
        lemma_value_of_digits(n / 10);
        let high = decimal_digits(n / 10);
        assert(high.push(n % 10).drop_last() =~= high);
    }
}

/// A string of `k` digits spells a number below `10^k`.
pub proof fn lemma_value_bound(digits: Seq<nat>)
    requires
        is_decimal(digits),
    ensures
        decimal_value(digits) < pow10(digits.len()),
    decreases digits.len(),
{
    if digits.len() > 0 {
        lemma_value_bound(digits.drop_last());
    }
}

/// Cutting low digits off a string divides its value by a power of ten.
pub proof fn lemma_prefix_is_quotient(digits: Seq<nat>, kept: int)
    requires
        is_decimal(digits),
        0 <= kept <= digits.len(),
    ensures
        decimal_value(digits.subrange(0, kept)) == decimal_value(digits) / pow10(
            (digits.len() - kept) as nat,
        ),
    decreases digits.len(),
{
    if kept == digits.len() {
        assert(digits.subrange(0, kept) =~= digits);
        assert(pow10(0) == 1);
    } else {
        let shorter = digits.drop_last();
        let cut = (digits.len() - kept) as nat;
        assert(digits.subrange(0, kept) =~= shorter.subrange(0, kept));
        lemma_prefix_is_quotient(shorter, kept);
        // Dividing by ten and then by the rest of the power divides by the
        // whole power.
        let rest = pow10((cut - 1) as nat);
        lemma_pow10_positive((cut - 1) as nat);
        assert(decimal_value(digits) / 10 == decimal_value(shorter));
        lemma_div_denominator(decimal_value(digits) as int, 10, rest as int);
    }
}

/// Cutting high digits off a string leaves the remainder of its value by a
/// power of ten.
pub proof fn lemma_suffix_is_remainder(digits: Seq<nat>, from: int)
    requires
        is_decimal(digits),
        0 <= from <= digits.len(),
    ensures
        decimal_value(digits.subrange(from, digits.len() as int)) == decimal_value(digits) % pow10(
            (digits.len() - from) as nat,
        ),
    decreases digits.len(),
{
    let len = digits.len() as int;
    if from < len {
        // The string without its last digit: its suffix is the suffix
        // without its last digit, and its value the value divided by ten.
        let shorter = digits.drop_last();
        let kept = (len - from) as nat;
        assert(digits.subrange(from, len).drop_last() =~= shorter.subrange(from, len - 1));
        lemma_suffix_is_remainder(shorter, from);
        lemma_pow10_positive((kept - 1) as nat);
        lemma_mod_breakdown(decimal_value(digits) as int, 10, pow10((kept - 1) as nat) as int);
    }
}

/// The middle of a number is a quotient and a remainder: drop as many low
/// digits as the method says, and of what is left keep `width` digits.
pub proof fn lemma_middle_digits_arithmetic(n: nat, width: nat)
    ensures
        middle_digits_of(n, width) == (n / pow10(dropped_digits(width))) % pow10(width),
{
    let rendered = decimal_digits(n);
    let dropped = dropped_digits(width);
    lemma_digits_are_decimal(n);
    lemma_value_of_digits(n);
    lemma_pow10_positive(dropped);
    lemma_pow10_positive(width);
    let end: int = if rendered.len() >= dropped {
        rendered.len() - dropped
    } else {
        0
    };
    let start: int = if end >= width {
        end - width
    } else {
        0
    };
    let high = rendered.subrange(0, end);
    assert(middle_window(rendered, width) =~= high.subrange(start, end));
    // What is left after the low digits are dropped.
    assert(decimal_value(high) == n / pow10(dropped)) by {
        lemma_prefix_is_quotient(rendered, end);
        if rendered.len() < dropped {
            lemma_value_bound(rendered);
            lemma_pow10_increases(rendered.len(), dropped);
            vstd::arithmetic::div_mod::lemma_basic_div(n as int, pow10(dropped) as int);
            vstd::arithmetic::div_mod::lemma_basic_div(n as int, pow10(rendered.len()) as int);
        }
    }
    // Of that, the last `width` digits, or all of it where it has fewer.
    lemma_suffix_is_remainder(high, start);
    if end < width {
        lemma_value_bound(high);
        lemma_pow10_increases(end as nat, width);
        lemma_small_mod(decimal_value(high), pow10(width));
        lemma_small_mod(decimal_value(high), pow10(end as nat));
    }
}

/// A quotient and a remainder on given numbers: `value` is what is left of
/// `n` when `low` is divided away and the quotient is reduced by `window`.
pub proof fn lemma_quotient_remainder(
    n: nat,
    low: nat,
    window: nat,
    quotient: nat,
    rest: nat,
    wraps: nat,
    value: nat,
)
    requires
        n == quotient * low + rest,
        rest < low,
        quotient == wraps * window + value,
        value < window,
    ensures
        (n / low) % window == value,
{
    vstd::arithmetic::div_mod::lemma_fundamental_div_mod_converse(
        n as int,
        low as int,
        quotient as int,
        rest as int,
    );
    vstd::arithmetic::div_mod::lemma_fundamental_div_mod_converse(
        quotient as int,
        window as int,
        wraps as int,
        value as int,
    );
}

/// The largest exponent for which a power of ten fits 128 bits.
pub const MAX_EXPONENT: usize = 38;

/// The powers of ten that fit 128 bits; `10^39` does not.
pub proof fn lemma_pow10_values()
    ensures
        pow10(0) == 1,
        pow10(1) == 10,
        pow10(2) == 100,
        pow10(3) == 1000,
        pow10(4) == 10000,
        pow10(5) == 100000,
        pow10(6) == 1000000,
        pow10(7) == 10000000,
        pow10(8) == 100000000,
        pow10(9) == 1000000000,
        pow10(10) == 10000000000,
        pow10(11) == 100000000000,
        pow10(12) == 1000000000000,
        pow10(13) == 10000000000000,
        pow10(14) == 100000000000000,
        pow10(15) == 1000000000000000,
        pow10(16) == 10000000000000000,
        pow10(17) == 100000000000000000,
        pow10(18) == 1000000000000000000,
        pow10(19) == 10000000000000000000,
        pow10(20) == 100000000000000000000,
        pow10(21) == 1000000000000000000000,
        pow10(22) == 10000000000000000000000,
        pow10(23) == 100000000000000000000000,
        pow10(24) == 1000000000000000000000000,
        pow10(25) == 10000000000000000000000000,
        pow10(26) == 100000000000000000000000000,
        pow10(27) == 1000000000000000000000000000,
        pow10(28) == 10000000000000000000000000000,
        pow10(29) == 100000000000000000000000000000,
        pow10(30) == 1000000000000000000000000000000,
        pow10(31) == 10000000000000000000000000000000,
        pow10(32) == 100000000000000000000000000000000,
        pow10(33) == 1000000000000000000000000000000000,
        pow10(34) == 10000000000000000000000000000000000,
        pow10(35) == 100000000000000000000000000000000000,
        pow10(36) == 1000000000000000000000000000000000000,
        pow10(37) == 10000000000000000000000000000000000000,
        pow10(38) == 100000000000000000000000000000000000000,
        pow10(39) > u128::MAX,
{
    reveal_with_fuel(pow10, 40);
}

/// Ten to the power `e`, for an exponent small enough for the power to fit.
pub fn power_of_ten(e: usize) -> (r: u128)
    requires
        e <= MAX_EXPONENT,
    ensures
        r == pow10(e as nat),
{
    let mut r: u128 = 1;
    let mut i: usize = 0;
    while i < e
        invariant
            i <= e <= MAX_EXPONENT,
            r == pow10(i as nat),
        decreases e - i,
    {
        proof {
            lemma_pow10_increases((i + 1) as nat, 38);
            lemma_pow10_values();
        }
        r = r * 10;
        i = i + 1;
    }
    r
}

/// The middle `width` digits of `n`, computed without writing `n` down: the
/// low digits are divided away and the window is a remainder.
pub fn middle_digits(n: u128, width: usize) -> (r: u128)
    ensures
        r == middle_digits_of(n as nat, width as nat),
        r == (n as nat / pow10(dropped_digits(width as nat))) % pow10(width as nat),
{
    let dropped: usize = width / 2 + width % 2;
    proof {
        lemma_middle_digits_arithmetic(n as nat, width as nat);
        lemma_pow10_values();
        lemma_pow10_positive(dropped as nat);
        lemma_pow10_positive(width as nat);
        assert(dropped == dropped_digits(width as nat));
    }
    if dropped > MAX_EXPONENT {
        proof {
            lemma_pow10_increases(39, dropped as nat);
            vstd::arithmetic::div_mod::lemma_basic_div(n as int, pow10(dropped as nat) as int);
            lemma_small_mod(0, pow10(width as nat));
        }
        return 0;
    }
    let high: u128 = n / power_of_ten(dropped);
    if width > MAX_EXPONENT {
        proof {
            lemma_pow10_increases(39, width as nat);
            lemma_small_mod(high as nat, pow10(width as nat));
        }
        high
    } else {
        high % power_of_ten(width)
    }
}

} // verus!
