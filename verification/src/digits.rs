//! Mathematical model of decimal digit strings: which bytes are ASCII digits,
//! the value a digit sequence denotes, and powers of ten.

use vstd::prelude::*;
use vstd::arithmetic::mul::{lemma_mul_strict_inequality, lemma_mul_is_distributive_add_other_way};

verus! {

/// True when `b` is the ASCII code of a decimal digit, `'0'..='9'`.
pub open spec fn is_digit_byte(b: u8) -> bool {
    48 <= b <= 57
}

/// The numeric value of a digit byte.
pub open spec fn digit_of(b: u8) -> nat
    recommends
        is_digit_byte(b),
{
    (b - 48) as nat
}

/// True when every byte of `s` is an ASCII decimal digit.
pub open spec fn all_digits(s: Seq<u8>) -> bool {
    forall|i: int| 0 <= i < s.len() ==> is_digit_byte(#[trigger] s[i])
}

/// The number that the digit string `s` denotes in base ten, most significant
/// digit first. The empty sequence denotes zero.
pub open spec fn digits_value(s: Seq<u8>) -> nat
    recommends
        all_digits(s),
    decreases s.len(),
{
    if s.len() == 0 {
        0
    } else {
        digits_value(s.drop_last()) * 10 + digit_of(s.last())
    }
}

/// Ten to the power `k`.
pub open spec fn pow10(k: nat) -> nat
    decreases k,
{
    if k == 0 {
        1
    } else {
        10 * pow10((k - 1) as nat)
    }
}

/// Powers of ten are positive.
pub proof fn lemma_pow10_pos(k: nat)
    ensures
        pow10(k) >= 1,
    decreases k,
{
    if k > 0 {
        lemma_pow10_pos((k - 1) as nat);
    }
}

/// Powers of ten grow monotonically with the exponent.
pub proof fn lemma_pow10_mono(a: nat, b: nat)
    requires
        a <= b,
    ensures
        pow10(a) <= pow10(b),
    decreases b,
{
    if a < b {
        lemma_pow10_mono(a, (b - 1) as nat);
        lemma_pow10_pos((b - 1) as nat);
    }
}

/// Exponents add: `10^(a+b) == 10^a * 10^b`.
pub proof fn lemma_pow10_adds(a: nat, b: nat)
    ensures
        pow10(a + b) == pow10(a) * pow10(b),
    decreases a,
{
    if a == 0 {
        assert(pow10(0 + b) == 1 * pow10(b));
    } else {
        lemma_pow10_adds((a - 1) as nat, b);
        assert(10 * (pow10((a - 1) as nat) * pow10(b)) == (10 * pow10((a - 1) as nat)) * pow10(b))
            by (nonlinear_arith);
    }
}

/// The two power-of-ten constants at the edge of the 64-bit range.
pub proof fn lemma_pow10_values()
    ensures
        pow10(19) == 10_000_000_000_000_000_000,
        pow10(20) == 100_000_000_000_000_000_000,
{
    reveal_with_fuel(pow10, 21);
}

/// A string of `n` digits denotes a value below `10^n`.
pub proof fn lemma_digits_value_bound(s: Seq<u8>)
    requires
        all_digits(s),
    ensures
        digits_value(s) < pow10(s.len()),
    decreases s.len(),
{
    if s.len() > 0 {
        assert(all_digits(s.drop_last()));
        lemma_digits_value_bound(s.drop_last());
        assert(is_digit_byte(s.last()));
    }
}

/// Extending a digit prefix by one byte multiplies its value by ten and adds
/// the new digit.
pub proof fn lemma_digits_value_step(s: Seq<u8>, j: int)
    requires
        0 <= j < s.len(),
    ensures
        digits_value(s.take(j + 1)) == digits_value(s.take(j)) * 10 + digit_of(s[j]),
{
    assert(s.take(j + 1).drop_last() =~= s.take(j));
    assert(s.take(j + 1).last() == s[j]);
}

/// How one accumulation step moves the place-value-weighted prefix total:
/// folding digit `s[j]` into a prefix of length `j` adds that digit times its
/// place value `10^(len-1-j)`.
pub proof fn lemma_acc_step(s: Seq<u8>, j: int)
    requires
        0 <= j < s.len(),
    ensures
        digits_value(s.take(j + 1)) * pow10((s.len() - j - 1) as nat) == digits_value(s.take(j))
            * pow10((s.len() - j) as nat) + digit_of(s[j]) * pow10((s.len() - j - 1) as nat),
{
    lemma_digits_value_step(s, j);
    let a = digits_value(s.take(j));
    let d = digit_of(s[j]);
    let p = pow10((s.len() - j - 1) as nat);
    assert(pow10((s.len() - j) as nat) == 10 * p);
    assert((a * 10 + d) * p == a * (10 * p) + d * p) by (nonlinear_arith);
}

/// A digit prefix grown past a digit byte is still all digits.
pub proof fn lemma_all_digits_extend(s: Seq<u8>, j: int)
    requires
        0 <= j < s.len(),
        all_digits(s.take(j)),
        is_digit_byte(s[j]),
    ensures
        all_digits(s.take(j + 1)),
{
    assert forall|i: int| 0 <= i < j + 1 implies is_digit_byte(#[trigger] s.take(j + 1)[i]) by {
        if i < j {
            assert(s.take(j)[i] == s[i]);
        }
        assert(s.take(j + 1)[i] == s[i]);
    }
}

/// The place-value-weighted total of a digit prefix stays below `10^len`.
pub proof fn lemma_prefix_bound(s: Seq<u8>, j: int)
    requires
        0 <= j <= s.len(),
        all_digits(s.take(j)),
    ensures
        digits_value(s.take(j)) * pow10((s.len() - j) as nat) < pow10(s.len()),
{
    let p = s.take(j);
    lemma_digits_value_bound(p);
    lemma_pow10_pos((s.len() - j) as nat);
    lemma_mul_strict_inequality(
        digits_value(p) as int,
        pow10(j as nat) as int,
        pow10((s.len() - j) as nat) as int,
    );
    lemma_pow10_adds(j as nat, (s.len() - j) as nat);
}

} // verus!
