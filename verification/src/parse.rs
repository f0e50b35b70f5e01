//! The decimal parser: a byte span of ASCII digits to an unsigned integer.
//!
//! The accumulation loop is driven by the power-of-ten table and processes
//! digits four at a time, so that the four multiply/add pairs of a group are
//! independent; a fixup loop takes the at most three digits left. The index
//! alignment rule — an input of length `len` starts at table index
//! `20 - len`, so the last byte always meets table index 19, place value one
//! — gives every digit its place value without a per-digit branch.
//!
//! Every byte is validated before its value enters the accumulator. The
//! accumulator itself is 128 bits wide against the exact 64-bit place
//! values, so a value past the target width is detected and reported as an
//! overflow rather than wrapped away.

use vstd::prelude::*;
use vstd::arithmetic::mul::lemma_mul_upper_bound;
use crate::digits::{
    all_digits, digit_of, digits_value, is_digit_byte, lemma_acc_step, lemma_all_digits_extend,
    lemma_pow10_mono, lemma_pow10_values, lemma_prefix_bound, pow10,
};
use crate::table::pow10_table_u64;
use crate::width::Unsigned;

verus! {

/// Why a parse failed.
#[derive(Clone, Copy, Debug, PartialEq, Eq)]
pub enum ParseError {
    /// A byte outside `'0'..='9'`; the payload is its index in the input.
    InvalidDigit(usize),
    /// The input has more than 20 bytes, more decimal digits than any
    /// supported width can represent.
    TooLong,
    /// Every byte is a digit, but the denoted value exceeds the target
    /// width's range.
    Overflow,
}

/// True when the parser owes a value for the byte span `s` at a width whose
/// largest value is `max`: at most 20 bytes, all ASCII digits, and a denoted
/// value within range. The empty span is accepted and denotes zero.
pub open spec fn accepted(s: Seq<u8>, max: nat) -> bool {
    s.len() <= 20 && all_digits(s) && digits_value(s) <= max
}

/// Parses a decimal byte span into an unsigned integer of width `W`.
///
/// Exactly one of four outcomes holds:
/// - `Ok(v)` when the span is accepted for the width; `v` is the denoted
///   value, and the empty span yields zero;
/// - `TooLong` when the span has more than 20 bytes;
/// - `InvalidDigit(i)` when byte `i` is the first byte outside `'0'..='9'`;
/// - `Overflow` when every byte is a digit but the value exceeds the width.
pub fn parse_unsigned<W: Unsigned>(bytes: &[u8]) -> (r: Result<W, ParseError>)
    ensures
        r is Ok <==> accepted(bytes@, W::max_spec()),
        match r {
            Ok(v) => accepted(bytes@, W::max_spec()) && v.to_nat() == digits_value(bytes@),
            Err(ParseError::TooLong) => bytes@.len() > 20,
            Err(ParseError::InvalidDigit(i)) => bytes@.len() <= 20 && i < bytes@.len()
                && !is_digit_byte(bytes@[i as int]) && all_digits(bytes@.take(i as int)),
            Err(ParseError::Overflow) => bytes@.len() <= 20 && all_digits(bytes@)
                && digits_value(bytes@) > W::max_spec(),
        },
{
    let len: usize = bytes.len();
    if len > 20 {
        return Err(ParseError::TooLong);
    }
    let table: Vec<u64> = pow10_table_u64();
    let mut acc: u128 = 0;
    let mut pos: usize = 0;
    let mut idx: usize = 20 - len;
    proof {
        assert(bytes@.take(0).len() == 0);
        assert(digits_value(bytes@.take(0)) == 0);
    }
    while pos + 4 <= len
        invariant
            len == bytes@.len() <= 20,
            pos <= len,
            idx == 20 - len + pos,
            table@.len() == 20,
            forall|i: int| 0 <= i < 20 ==> #[trigger] table@[i] as nat == pow10((19 - i) as nat),
            all_digits(bytes@.take(pos as int)),
            acc as nat == digits_value(bytes@.take(pos as int)) * pow10((len - pos) as nat),
        decreases len - pos,
    {
        let b1: u8 = bytes[pos];
        if b1 < 48 || b1 > 57 {
            return Err(ParseError::InvalidDigit(pos));
        }
        proof {
            lemma_all_digits_extend(bytes@, pos as int);
        }
        let b2: u8 = bytes[pos + 1];
        if b2 < 48 || b2 > 57 {
            return Err(ParseError::InvalidDigit(pos + 1));
        }
        proof {
            lemma_all_digits_extend(bytes@, pos as int + 1);
        }
        let b3: u8 = bytes[pos + 2];
        if b3 < 48 || b3 > 57 {
            return Err(ParseError::InvalidDigit(pos + 2));
        }
        proof {
            lemma_all_digits_extend(bytes@, pos as int + 2);
        }
        let b4: u8 = bytes[pos + 3];
        if b4 < 48 || b4 > 57 {
            return Err(ParseError::InvalidDigit(pos + 3));
        }
        proof {
            lemma_all_digits_extend(bytes@, pos as int + 3);
            lemma_pow10_values();
            lemma_pow10_mono((19 - (idx + 3)) as nat, 19);
            lemma_pow10_mono((19 - (idx + 2)) as nat, 19);
            lemma_pow10_mono((19 - (idx + 1)) as nat, 19);
            lemma_pow10_mono((19 - idx) as nat, 19);
            lemma_mul_upper_bound((b1 - 48) as int, 9, table@[idx as int] as int, pow10(19) as int);
            lemma_mul_upper_bound(
                (b2 - 48) as int,
                9,
                table@[idx as int + 1] as int,
                pow10(19) as int,
            );
            lemma_mul_upper_bound(
                (b3 - 48) as int,
                9,
                table@[idx as int + 2] as int,
                pow10(19) as int,
            );
            lemma_mul_upper_bound(
                (b4 - 48) as int,
                9,
                table@[idx as int + 3] as int,
                pow10(19) as int,
            );
        }
        let r1: u128 = ((b1 - 48) as u128) * (table[idx] as u128);
        let r2: u128 = ((b2 - 48) as u128) * (table[idx + 1] as u128);
        let r3: u128 = ((b3 - 48) as u128) * (table[idx + 2] as u128);
        let r4: u128 = ((b4 - 48) as u128) * (table[idx + 3] as u128);
        proof {
            lemma_prefix_bound(bytes@, pos as int);
            lemma_pow10_mono(len as nat, 20);
            lemma_acc_step(bytes@, pos as int);
            lemma_acc_step(bytes@, pos as int + 1);
            lemma_acc_step(bytes@, pos as int + 2);
            lemma_acc_step(bytes@, pos as int + 3);
            assert(r1 as nat == digit_of(bytes@[pos as int]) * pow10((len - pos - 1) as nat));
            assert(r2 as nat == digit_of(bytes@[pos as int + 1]) * pow10((len - pos - 2) as nat));
            assert(r3 as nat == digit_of(bytes@[pos as int + 2]) * pow10((len - pos - 3) as nat));
            assert(r4 as nat == digit_of(bytes@[pos as int + 3]) * pow10((len - pos - 4) as nat));
        }
        acc = acc + r1 + r2 + r3 + r4;
        pos = pos + 4;
        idx = idx + 4;
    }
    while pos < len
        invariant
            len == bytes@.len() <= 20,
            pos <= len,
            idx == 20 - len + pos,
            table@.len() == 20,
            forall|i: int| 0 <= i < 20 ==> #[trigger] table@[i] as nat == pow10((19 - i) as nat),
            all_digits(bytes@.take(pos as int)),
            acc as nat == digits_value(bytes@.take(pos as int)) * pow10((len - pos) as nat),
        decreases len - pos,
    {
        let b: u8 = bytes[pos];
        if b < 48 || b > 57 {
            return Err(ParseError::InvalidDigit(pos));
        }
        proof {
            lemma_all_digits_extend(bytes@, pos as int);
            lemma_pow10_values();
            lemma_pow10_mono((19 - idx) as nat, 19);
            lemma_mul_upper_bound((b - 48) as int, 9, table@[idx as int] as int, pow10(19) as int);
        }
        let r1: u128 = ((b - 48) as u128) * (table[idx] as u128);
        proof {
            lemma_prefix_bound(bytes@, pos as int);
            lemma_pow10_mono(len as nat, 20);
            lemma_acc_step(bytes@, pos as int);
            assert(r1 as nat == digit_of(bytes@[pos as int]) * pow10((len - pos - 1) as nat));
        }
        acc = acc + r1;
        pos = pos + 1;
        idx = idx + 1;
    }
    proof {
        assert(bytes@.take(len as int) =~= bytes@);
        assert(pow10((len - pos) as nat) == 1);
        assert(digits_value(bytes@) * 1 == digits_value(bytes@)) by (nonlinear_arith);
        assert(acc as nat == digits_value(bytes@));
        assert(all_digits(bytes@));
    }
    let m: u64 = W::max_value();
    if acc > m as u128 {
        return Err(ParseError::Overflow);
    }
    Ok(W::from_u64(acc as u64))
}

} // verus!
