//! The power-of-ten table provider.
//!
//! A table holds the twenty decimal place values `10^19` down to `10^0`, so
//! that entry `i` is `10^(19-i)` and the last entry is always one. For a
//! target width too narrow to hold the larger powers, an entry is the power
//! reduced modulo the width's range, the width's wraparound semantics; the
//! index-alignment rule of the parser keeps such entries away from nonzero
//! digits on inputs whose value fits the width.

use vstd::prelude::*;
use crate::digits::{pow10, lemma_pow10_mono, lemma_pow10_values};
use crate::width::Unsigned;

verus! {

/// What it means for `t` to be the power table of a width whose largest
/// value is `W::max_spec()`: twenty entries, entry `i` holding `10^(19-i)`
/// reduced to the width's range.
pub open spec fn pow10_table_spec<W: Unsigned>(t: Seq<W>) -> bool {
    &&& t.len() == 20
    &&& forall|i: int|
        0 <= i < 20 ==> (#[trigger] t[i]).to_nat() == pow10((19 - i) as nat) % (
        W::max_spec() + 1)
}

/// Ten to the power `k`, for exponents that fit a 64-bit value.
pub fn pow10_u64(k: u64) -> (r: u64)
    requires
        k <= 19,
    ensures
        r as nat == pow10(k as nat),
{
    proof {
        lemma_pow10_values();
    }
    let mut p: u64 = 1;
    let mut i: u64 = 0;
    while i < k
        invariant
            i <= k <= 19,
            p as nat == pow10(i as nat),
        decreases k - i,
    {
        proof {
            lemma_pow10_mono((i + 1) as nat, 19);
            lemma_pow10_values();
        }
        p = p * 10;
        i = i + 1;
    }
    p
}

/// The exact 64-bit power table: entry `i` holds `10^(19-i)`.
///
/// Every listed power fits a 64-bit value, so no entry wraps; the parser
/// accumulates against this table whatever the target width.
pub fn pow10_table_u64() -> (t: Vec<u64>)
    ensures
        t@.len() == 20,
        forall|i: int| 0 <= i < 20 ==> #[trigger] t@[i] as nat == pow10((19 - i) as nat),
{
    let mut t: Vec<u64> = Vec::new();
    let mut k: usize = 20;
    while k > 0
        invariant
            k <= 20,
            t@.len() == 20 - k,
            forall|i: int| 0 <= i < t@.len() ==> #[trigger] t@[i] as nat == pow10((19 - i) as nat),
        decreases k,
    {
        k = k - 1;
        let entry: u64 = pow10_u64(k as u64);
        t.push(entry);
    }
    t
}

/// The power table for the width `W`: entry `i` holds `10^(19-i)`, reduced
/// modulo the width's range where the power does not fit.
///
/// The provider is a pure function of the width — see
/// [`lemma_pow10_table_unique`] — so a caller may compute the table once and
/// share it freely.
pub fn pow10_table<W: Unsigned>() -> (t: Vec<W>)
    ensures
        pow10_table_spec(t@),
{
    let base: Vec<u64> = pow10_table_u64();
    let mut t: Vec<W> = Vec::new();
    let mut i: usize = 0;
    while i < 20
        invariant
            i <= 20,
            base@.len() == 20,
            forall|j: int| 0 <= j < 20 ==> #[trigger] base@[j] as nat == pow10((19 - j) as nat),
            t@.len() == i,
            forall|j: int|
                0 <= j < i ==> (#[trigger] t@[j]).to_nat() == pow10((19 - j) as nat) % (
                W::max_spec() + 1),
        decreases 20 - i,
    {
        let entry: W = W::from_u64_wrapped(base[i]);
        t.push(entry);
        i = i + 1;
    }
    t
}

/// The table provider is idempotent: the table is a pure function of the
/// width alone, so any two sequences that meet its contract — such as the
/// results of two calls of [`pow10_table`] — are identical.
pub proof fn lemma_pow10_table_unique<W: Unsigned>(t1: Seq<W>, t2: Seq<W>)
    requires
        pow10_table_spec(t1),
        pow10_table_spec(t2),
    ensures
        t1 == t2,
{
    assert forall|i: int| 0 <= i < 20 implies t1[i] == t2[i] by {
        W::to_nat_injective(t1[i], t2[i]);
    }
    assert(t1 =~= t2);
}

} // verus!
