//! The unsigned widths the parser serves, as one abstraction.
//!
//! The trait captures what the parsing algorithm needs of an unsigned
//! integer width — its mathematical value, its range, and conversion from a
//! 64-bit value with and without wraparound — so that one parametric
//! algorithm serves every width instead of one hand-written copy each.

use vstd::prelude::*;
use vstd::arithmetic::div_mod::lemma_small_mod;

verus! {

/// An unsigned integer width: 8, 16, 32 or 64 bits, or the platform word.
pub trait Unsigned: Sized {
    /// The mathematical value of this machine integer.
    spec fn to_nat(self) -> nat;

    /// The largest value the width can hold.
    spec fn max_spec() -> nat;

    /// Two values of the width with the same mathematical value are equal.
    proof fn to_nat_injective(a: Self, b: Self)
        requires
            a.to_nat() == b.to_nat(),
        ensures
            a == b,
    ;

    /// The largest value of the width, as a 64-bit integer.
    fn max_value() -> (m: u64)
        ensures
            m as nat == Self::max_spec(),
    ;

    /// Converts a 64-bit value that the width can hold.
    fn from_u64(v: u64) -> (r: Self)
        requires
            v as nat <= Self::max_spec(),
        ensures
            r.to_nat() == v as nat,
    ;

    /// Converts a 64-bit value with the width's wraparound semantics.
    fn from_u64_wrapped(v: u64) -> (r: Self)
        ensures
            r.to_nat() == (v as nat) % (Self::max_spec() + 1),
    ;
}

impl Unsigned for u8 {
    open spec fn to_nat(self) -> nat {
        self as nat
    }

    open spec fn max_spec() -> nat {
        u8::MAX as nat
    }

    proof fn to_nat_injective(a: u8, b: u8) {
    }

    fn max_value() -> u64 {
        u8::MAX as u64
    }

    fn from_u64(v: u64) -> u8 {
        v as u8
    }

    fn from_u64_wrapped(v: u64) -> u8 {
        (v % 256) as u8
    }
}

impl Unsigned for u16 {
    open spec fn to_nat(self) -> nat {
        self as nat
    }

    open spec fn max_spec() -> nat {
        u16::MAX as nat
    }

    proof fn to_nat_injective(a: u16, b: u16) {
    }

    fn max_value() -> u64 {
        u16::MAX as u64
    }

    fn from_u64(v: u64) -> u16 {
        v as u16
    }

    fn from_u64_wrapped(v: u64) -> u16 {
        (v % 65536) as u16
    }
}

impl Unsigned for u32 {
    open spec fn to_nat(self) -> nat {
        self as nat
    }

    open spec fn max_spec() -> nat {
        u32::MAX as nat
    }

    proof fn to_nat_injective(a: u32, b: u32) {
    }

    fn max_value() -> u64 {
        u32::MAX as u64
    }

    fn from_u64(v: u64) -> u32 {
        v as u32
    }

    fn from_u64_wrapped(v: u64) -> u32 {
        (v % 4294967296) as u32
    }
}

impl Unsigned for u64 {
    open spec fn to_nat(self) -> nat {
        self as nat
    }

    open spec fn max_spec() -> nat {
        u64::MAX as nat
    }

    proof fn to_nat_injective(a: u64, b: u64) {
    }

    fn max_value() -> u64 {
        u64::MAX
    }

    fn from_u64(v: u64) -> u64 {
        v
    }

    fn from_u64_wrapped(v: u64) -> (r: u64) {
        proof {
            lemma_small_mod(v as nat, 0x1_0000_0000_0000_0000);
        }
        v
    }
}

impl Unsigned for usize {
    open spec fn to_nat(self) -> nat {
        self as nat
    }

    open spec fn max_spec() -> nat {
        usize::MAX as nat
    }

    proof fn to_nat_injective(a: usize, b: usize) {
    }

    fn max_value() -> u64 {
        usize::MAX as u64
    }

    fn from_u64(v: u64) -> usize {
        v as usize
    }

    fn from_u64_wrapped(v: u64) -> (r: usize) {
        let wide: u128 = (v as u128) % ((usize::MAX as u128) + 1);
        wide as usize
    }
}

} // verus!
