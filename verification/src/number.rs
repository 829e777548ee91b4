//! Lox numbers: IEEE 754 binary64 values, held as their 64-bit pattern.
//!
//! Sign, ordering and equality are decided here on the bit pattern itself.
//! Rounded arithmetic and the reading of decimal text are done by the
//! `rustc_apfloat` crate; those results are named by uninterpreted
//! functions, so contracts can speak of them exactly.

use vstd::prelude::*;
use rustc_apfloat::ieee::Double;
use rustc_apfloat::Float;

verus! {

/// The value of the sign bit; also the bit pattern of negative zero.
pub const SIGN_BIT: u64 = 0x8000_0000_0000_0000;

/// The bit pattern of positive infinity. Every larger magnitude is a NaN.
pub const INFINITY_BITS: u64 = 0x7ff0_0000_0000_0000;

/// The bit pattern without its sign bit.
pub open spec fn magnitude(bits: u64) -> int {
    (bits as int) % 0x8000_0000_0000_0000
}

/// Whether the sign bit is set.
pub open spec fn sign_set(bits: u64) -> bool {
    bits >= 0x8000_0000_0000_0000
}

/// Whether the pattern is a NaN: all exponent bits set and a non-zero fraction.
pub open spec fn is_nan(bits: u64) -> bool {
    magnitude(bits) > 0x7ff0_0000_0000_0000
}

/// Whether the pattern is positive or negative zero.
pub open spec fn is_zero(bits: u64) -> bool {
    magnitude(bits) == 0
}

/// A number that orders non-NaN patterns as IEEE 754 orders their values:
/// the magnitude, negated where the sign bit is set. Both zeros map to 0.
pub open spec fn ordinal(bits: u64) -> int {
    if sign_set(bits) {
        -magnitude(bits)
    } else {
        magnitude(bits)
    }
}

/// IEEE 754 equality: NaN equals nothing, and the two zeros are equal.
pub open spec fn numerically_equal(a: u64, b: u64) -> bool {
    !is_nan(a) && !is_nan(b) && ordinal(a) == ordinal(b)
}

/// IEEE 754 `<`: false whenever either side is a NaN.
pub open spec fn numerically_less(a: u64, b: u64) -> bool {
    !is_nan(a) && !is_nan(b) && ordinal(a) < ordinal(b)
}

/// The pattern with its sign bit flipped.
pub open spec fn negated(bits: u64) -> u64 {
    if sign_set(bits) {
        (bits - 0x8000_0000_0000_0000) as u64
    } else {
        (bits + 0x8000_0000_0000_0000) as u64
    }
}

/// The rounded sum of two binary64 values, as bit patterns.
pub uninterp spec fn sum_bits(a: u64, b: u64) -> u64;

/// The rounded difference of two binary64 values, as bit patterns.
pub uninterp spec fn difference_bits(a: u64, b: u64) -> u64;

/// The rounded product of two binary64 values, as bit patterns.
pub uninterp spec fn product_bits(a: u64, b: u64) -> u64;

/// The rounded quotient of two binary64 values, as bit patterns.
pub uninterp spec fn quotient_bits(a: u64, b: u64) -> u64;

/// The binary64 value nearest to an unsigned integer, as a bit pattern.
pub uninterp spec fn bits_of_integer(n: u64) -> u64;

/// The binary64 value that a piece of decimal text denotes, if it denotes one.
pub uninterp spec fn bits_of_text(text: Seq<char>) -> Option<u64>;

/// Calls `Add::add` of `rustc_apfloat::ieee::Double`, which rounds to nearest,
/// ties to even. The contract names the result and claims only that it is a
/// function of the two operands.
#[verifier::external_body]
fn add_bits(a: u64, b: u64) -> (r: u64)
    ensures
        r == sum_bits(a, b),
{
    (Double::from_bits(a as u128) + Double::from_bits(b as u128)).value.to_bits() as u64
}

/// Calls `Sub::sub` of `rustc_apfloat::ieee::Double`, which rounds to nearest,
/// ties to even. The contract names the result and claims only that it is a
/// function of the two operands.
#[verifier::external_body]
fn sub_bits(a: u64, b: u64) -> (r: u64)
    ensures
        r == difference_bits(a, b),
{
    (Double::from_bits(a as u128) - Double::from_bits(b as u128)).value.to_bits() as u64
}

/// Calls `Mul::mul` of `rustc_apfloat::ieee::Double`, which rounds to nearest,
/// ties to even. The contract names the result and claims only that it is a
/// function of the two operands.
#[verifier::external_body]
fn mul_bits(a: u64, b: u64) -> (r: u64)
    ensures
        r == product_bits(a, b),
{
    (Double::from_bits(a as u128) * Double::from_bits(b as u128)).value.to_bits() as u64
}

/// Calls `Div::div` of `rustc_apfloat::ieee::Double`, which rounds to nearest,
/// ties to even. The contract names the result and claims only that it is a
/// function of the two operands.
#[verifier::external_body]
fn div_bits(a: u64, b: u64) -> (r: u64)
    ensures
        r == quotient_bits(a, b),
{
    (Double::from_bits(a as u128) / Double::from_bits(b as u128)).value.to_bits() as u64
}

/// Calls `Float::from_u128` of `rustc_apfloat::ieee::Double`. The contract
/// names the result and claims only that it is a function of the integer.
#[verifier::external_body]
fn integer_bits(n: u64) -> (r: u64)
    ensures
        r == bits_of_integer(n),
{
    Double::from_u128(n as u128).value.to_bits() as u64
}

/// Whether a text is made of decimal digits and dots alone.
pub open spec fn decimal_text(text: Seq<char>) -> bool {
    forall|i: int| 0 <= i < text.len() ==> ('0' <= text[i] && text[i] <= '9') || text[i] == '.'
}

/// Calls `FromStr::from_str` of `rustc_apfloat::ieee::Double`, which reads
/// decimal text with correct rounding and rejects text it cannot read. The
/// contract names the result and claims only that it is a function of the
/// text; it does not say which texts are accepted. Only text of digits and
/// dots is handed to it.
#[verifier::external_body]
fn text_bits(text: &str) -> (r: Option<u64>)
    requires
        decimal_text(text@),
    ensures
        r == bits_of_text(text@),
{
    match text.parse::<Double>() {
        Ok(value) => Some(value.to_bits() as u64),
        Err(_) => None,
    }
}

/// A Lox number.
#[derive(Clone, Copy, Debug, PartialEq, Eq, Structural)]
pub struct Number {
    /// The IEEE 754 binary64 bit pattern.
    pub bits: u64,
}

impl Number {
    /// The number with the given bit pattern.
    pub fn from_bits(bits: u64) -> (r: Number)
        ensures
            r.bits == bits,
    {
        Number { bits }
    }

    /// The number nearest to an unsigned integer.
    pub fn from_integer(n: u64) -> (r: Number)
        ensures
            r.bits == bits_of_integer(n),
    {
        Number { bits: integer_bits(n) }
    }

    /// Reads a text of decimal digits and dots; `None` where the text
    /// denotes no number.
    pub fn parse(text: &str) -> (r: Option<Number>)
        requires
            decimal_text(text@),
        ensures
            r == Number::parsed(bits_of_text(text@)),
    {
        Number::from_parsed(text_bits(text))
    }

    /// What `parse` makes of the outcome of reading the text.
    pub open spec fn parsed(outcome: Option<u64>) -> Option<Number> {
        match outcome {
            Some(bits) => Some(Number { bits }),
            None => None,
        }
    }

    /// Wraps the outcome of reading a piece of text.
    pub fn from_parsed(outcome: Option<u64>) -> (r: Option<Number>)
        ensures
            r == Number::parsed(outcome),
    {
        match outcome {
            Some(bits) => Some(Number { bits }),
            None => None,
        }
    }

    /// Whether this is a NaN.
    pub fn is_nan(&self) -> (r: bool)
        ensures
            r == is_nan(self.bits),
    {
        self.bits % SIGN_BIT > INFINITY_BITS
    }

    /// Whether this is positive or negative zero.
    pub fn is_zero(&self) -> (r: bool)
        ensures
            r == is_zero(self.bits),
    {
        self.bits % SIGN_BIT == 0
    }

    /// Whether the sign bit is set.
    pub fn is_negative(&self) -> (r: bool)
        ensures
            r == sign_set(self.bits),
    {
        self.bits >= SIGN_BIT
    }

    /// The number with the opposite sign.
    pub fn negate(&self) -> (r: Number)
        ensures
            r.bits == negated(self.bits),
    {
        if self.bits >= SIGN_BIT {
            Number { bits: self.bits - SIGN_BIT }
        } else {
            Number { bits: self.bits + SIGN_BIT }
        }
    }

    /// IEEE 754 equality of the two values.
    pub fn equals(&self, other: &Number) -> (r: bool)
        ensures
            r == numerically_equal(self.bits, other.bits),
    {
        if self.is_nan() || other.is_nan() {
            false
        } else if self.is_zero() && other.is_zero() {
            true
        } else {
            self.bits == other.bits
        }
    }

    /// IEEE 754 `<` on the two values.
    pub fn less_than(&self, other: &Number) -> (r: bool)
        ensures
            r == numerically_less(self.bits, other.bits),
    {
        if self.is_nan() || other.is_nan() {
            false
        } else {
            let a: u64 = self.bits % SIGN_BIT;
            let b: u64 = other.bits % SIGN_BIT;
            if self.bits >= SIGN_BIT {
                if other.bits >= SIGN_BIT {
                    b < a
                } else {
                    a > 0 || b > 0
                }
            } else {
                if other.bits >= SIGN_BIT {
                    false
                } else {
                    a < b
                }
            }
        }
    }

    /// The rounded sum.
    pub fn sum(&self, other: &Number) -> (r: Number)
        ensures
            r.bits == sum_bits(self.bits, other.bits),
    {
        Number { bits: add_bits(self.bits, other.bits) }
    }

    /// The rounded difference.
    pub fn difference(&self, other: &Number) -> (r: Number)
        ensures
            r.bits == difference_bits(self.bits, other.bits),
    {
        Number { bits: sub_bits(self.bits, other.bits) }
    }

    /// The rounded product.
    pub fn product(&self, other: &Number) -> (r: Number)
        ensures
            r.bits == product_bits(self.bits, other.bits),
    {
        Number { bits: mul_bits(self.bits, other.bits) }
    }

    /// The rounded quotient.
    pub fn quotient(&self, other: &Number) -> (r: Number)
        ensures
            r.bits == quotient_bits(self.bits, other.bits),
    {
        Number { bits: div_bits(self.bits, other.bits) }
    }
}

} // verus!
