//! Leading-zero count of a 64-bit value.
//!
//! The count ranges from 0 (top bit set) to 64 (value zero). Hardware
//! bit-scan primitives commonly leave the zero input undefined; here the zero
//! case is pinned explicitly to 64, the number of zero bits the value has.

use vstd::prelude::*;
use vstd::arithmetic::power2::{pow2, lemma2_to64, lemma2_to64_rest, lemma_pow2_unfold};

verus! {

/// The number of leading zero bits in the 64-bit binary representation of
/// `x`: the unique `r` with `2^(63-r) <= x < 2^(64-r)` when `x` is nonzero,
/// and 64 when `x` is zero.
pub fn leading_zeros(x: u64) -> (r: u64)
    ensures
        r <= 64,
        x == 0 ==> r == 64,
        x != 0 ==> r <= 63 && pow2((63 - r) as nat) <= x < pow2((64 - r) as nat),
{
    if x == 0 {
        return 64;
    }
    proof {
        lemma2_to64();
        lemma2_to64_rest();
    }
    let mut i: u64 = 0;
    let mut p: u64 = 0x8000_0000_0000_0000;
    while x < p
        invariant
            x >= 1,
            i <= 63,
            p as nat == pow2((63 - i) as nat),
            x < pow2((64 - i) as nat),
        decreases p,
    {
        proof {
            lemma2_to64();
            if i == 63 {
                assert(false);
            }
            lemma_pow2_unfold((63 - i) as nat);
        }
        i = i + 1;
        p = p / 2;
    }
    i
}

/// The leading-zero count under its historical name.
///
/// The zero input, undefined for the bare hardware instruction this operation
/// descends from, returns 64: no bit is one, so all 64 positions are leading
/// zeros.
pub fn crust_clzl(x: u64) -> (r: u64)
    ensures
        r <= 64,
        x == 0 ==> r == 64,
        x != 0 ==> r <= 63 && pow2((63 - r) as nat) <= x < pow2((64 - r) as nat),
{
    leading_zeros(x)
}

} // verus!
