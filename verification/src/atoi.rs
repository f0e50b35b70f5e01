//! The string-facing conversion: `str` to an unsigned integer of a chosen
//! width.

use vstd::prelude::*;
use vstd::string::StringSliceAdditionalSpecFns;
use crate::digits::{digits_value, is_digit_byte};
use crate::parse::{accepted, parse_unsigned, ParseError};
use crate::width::Unsigned;

verus! {

/// A trait to convert a `str` into an unsigned integer.
pub trait Atoi: Unsigned {
    /// Performs the conversion: the string's bytes parsed as a decimal
    /// number of this width. Succeeds exactly when the input is at most 20
    /// bytes, every byte is an ASCII digit, and the denoted value fits the
    /// width; the empty string parses to zero.
    fn atoi(s: &str) -> (r: Result<Self, ()>)
        ensures
            match r {
                Ok(v) => accepted(s.spec_bytes(), Self::max_spec()) && v.to_nat()
                    == digits_value(s.spec_bytes()),
                Err(_) => !accepted(s.spec_bytes(), Self::max_spec()),
            },
    ;
}

impl Atoi for u8 {
    fn atoi(s: &str) -> Result<u8, ()> {
        match parse_unsigned::<u8>(s.as_bytes()) {
            Ok(v) => Ok(v),
            Err(e) => {
                proof {
                    if let ParseError::InvalidDigit(i) = e {
                        assert(!is_digit_byte(s.spec_bytes()[i as int]));
                    }
                }
                Err(())
            },
        }
    }
}

impl Atoi for u16 {
    fn atoi(s: &str) -> Result<u16, ()> {
        match parse_unsigned::<u16>(s.as_bytes()) {
            Ok(v) => Ok(v),
            Err(e) => {
                proof {
                    if let ParseError::InvalidDigit(i) = e {
                        assert(!is_digit_byte(s.spec_bytes()[i as int]));
                    }
                }
                Err(())
            },
        }
    }
}

impl Atoi for u32 {
    fn atoi(s: &str) -> Result<u32, ()> {
        match parse_unsigned::<u32>(s.as_bytes()) {
            Ok(v) => Ok(v),
            Err(e) => {
                proof {
                    if let ParseError::InvalidDigit(i) = e {
                        assert(!is_digit_byte(s.spec_bytes()[i as int]));
                    }
                }
                Err(())
            },
        }
    }
}

impl Atoi for u64 {
    fn atoi(s: &str) -> Result<u64, ()> {
        match parse_unsigned::<u64>(s.as_bytes()) {
            Ok(v) => Ok(v),
            Err(e) => {
                proof {
                    if let ParseError::InvalidDigit(i) = e {
                        assert(!is_digit_byte(s.spec_bytes()[i as int]));
                    }
                }
                Err(())
            },
        }
    }
}

impl Atoi for usize {
    fn atoi(s: &str) -> Result<usize, ()> {
        match parse_unsigned::<usize>(s.as_bytes()) {
            Ok(v) => Ok(v),
            Err(e) => {
                proof {
                    if let ParseError::InvalidDigit(i) = e {
                        assert(!is_digit_byte(s.spec_bytes()[i as int]));
                    }
                }
                Err(())
            },
        }
    }
}

/// Converts a `str` into a `u64`, under the historical name of the
/// operation. Succeeds exactly when the input is at most 20 bytes, every
/// byte is an ASCII digit, and the denoted value fits 64 bits; the empty
/// string parses to zero.
pub fn crust_atoi(s: &str) -> (r: Result<u64, ()>)
    ensures
        match r {
            Ok(v) => accepted(s.spec_bytes(), u64::MAX as nat) && v == digits_value(
                s.spec_bytes(),
            ),
            Err(_) => !accepted(s.spec_bytes(), u64::MAX as nat),
        },
{
    u64::atoi(s)
}

} // verus!
