//! A fixed-width decimal-text-to-unsigned-integer parsing engine.
//!
//! The crate converts an ASCII byte span known to represent a non-negative
//! decimal number into a binary unsigned integer of a chosen width (8, 16, 32,
//! 64 bits, or the platform word), rejecting malformed input with a
//! distinguishable error. A companion primitive counts the leading zero bits
//! of a 64-bit value, defining the conventionally undefined zero case
//! explicitly.

pub mod atoi;
pub mod clz;
pub mod digits;
pub mod parse;
pub mod table;
pub mod width;

pub use atoi::{crust_atoi, Atoi};
pub use width::Unsigned;
pub use clz::{crust_clzl, leading_zeros};
pub use digits::{all_digits, digit_of, digits_value, is_digit_byte, pow10};
pub use parse::{accepted, parse_unsigned, ParseError};
pub use table::{lemma_pow10_table_unique, pow10_table, pow10_table_spec};
