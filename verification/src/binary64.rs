//! Binary floating-point numbers of 64 bits, held as their bits, and their
//! order.
//!
//! The bits are, from the top: one sign bit, eleven bits of exponent, and 52
//! bits of fraction. An exponent of all ones makes an infinity where the
//! fraction is zero and otherwise no number at all. Every other pattern is a
//! whole multiple of `2^-1074`, the least positive number, and the order of
//! the numbers is the order of these multiples.

use vstd::arithmetic::power2::{
    lemma2_to64, lemma_pow2_pos, lemma_pow2_strictly_increases, lemma_pow2_unfold, pow2,
};
use vstd::prelude::*;

verus! {

/// The sign bit, alone.
pub const SIGN_BIT: u64 = 0x8000_0000_0000_0000;

/// The bits of positive infinity: an exponent of all ones, and nothing else.
pub const INFINITY_BITS: u64 = 0x7FF0_0000_0000_0000;

/// The lowest bit of the exponent, which is one more than any fraction.
pub const FRACTION_END: u64 = 0x0010_0000_0000_0000;

/// The bits of positive zero.
pub const ZERO_BITS: u64 = 0;

/// A binary floating-point number of 64 bits.
#[derive(Clone, Copy, Debug)]
pub struct Binary64 {
    pub bits: u64,
}

impl Default for Binary64 {
    /// Positive zero.
    fn default() -> (number: Binary64)
        ensures
            number.bits == 0,
    {
        Binary64 { bits: 0 }
    }
}

impl Binary64 {
    /// Whether the sign bit is set.
    pub open spec fn is_sign_negative(self) -> bool {
        self.bits >= SIGN_BIT
    }

    /// The bits below the sign bit, as one number.
    pub open spec fn magnitude_bits(self) -> nat {
        if self.bits >= SIGN_BIT {
            (self.bits - SIGN_BIT) as nat
        } else {
            self.bits as nat
        }
    }

    /// Whether the bits stand for no number.
    pub open spec fn is_nan(self) -> bool {
        self.magnitude_bits() > INFINITY_BITS
    }

    /// The eleven bits of exponent, as one number.
    pub open spec fn exponent_field(self) -> nat {
        self.magnitude_bits() / (FRACTION_END as nat)
    }

    /// The 52 bits of fraction, as one number.
    pub open spec fn fraction_field(self) -> nat {
        self.magnitude_bits() % (FRACTION_END as nat)
    }

    /// The digits of the number: the fraction, with a leading one in front of
    /// it wherever the exponent is not zero.
    pub open spec fn significand(self) -> nat {
        if self.exponent_field() == 0 {
            self.fraction_field()
        } else {
            FRACTION_END as nat + self.fraction_field()
        }
    }

    /// How many places the digits are shifted up from the lowest place.
    pub open spec fn shift(self) -> nat {
        if self.exponent_field() == 0 {
            0
        } else {
            (self.exponent_field() - 1) as nat
        }
    }

    /// The magnitude of the number as a multiple of `2^-1074`. An infinity
    /// counts as `2^1024`, the power of two above every finite number.
    pub open spec fn size(self) -> nat {
        self.significand() * pow2(self.shift())
    }

    /// The number as a multiple of `2^-1074`. Both zeros are zero.
    pub open spec fn value(self) -> int {
        if self.is_sign_negative() {
            -(self.size() as int)
        } else {
            self.size() as int
        }
    }

    /// Whether both are numbers and `self` is the smaller.
    pub open spec fn less_than(self, other: Binary64) -> bool {
        !self.is_nan() && !other.is_nan() && self.value() < other.value()
    }

    /// Whether both are numbers and `self` is not the greater.
    pub open spec fn at_most(self, other: Binary64) -> bool {
        !self.is_nan() && !other.is_nan() && self.value() <= other.value()
    }

    /// The number with these bits.
    pub fn from_bits(bits: u64) -> (number: Binary64)
        ensures
            number.bits == bits,
    {
        Binary64 { bits }
    }

    /// The bits of the number.
    pub fn to_bits(self) -> (bits: u64)
        ensures
            bits == self.bits,
    {
        self.bits
    }

    /// The bits below the sign bit.
    fn magnitude(self) -> (magnitude: u64)
        ensures
            magnitude == self.magnitude_bits(),
            magnitude < SIGN_BIT,
    {
        if self.bits >= SIGN_BIT {
            self.bits - SIGN_BIT
        } else {
            self.bits
        }
    }

    /// Whether the bits stand for no number.
    pub fn nan(self) -> (nan: bool)
        ensures
            nan == self.is_nan(),
    {
        self.magnitude() > INFINITY_BITS
    }

    /// Whether both are numbers and `self` is the smaller.
    pub fn lt(self, other: Binary64) -> (less: bool)
        ensures
            less == self.less_than(other),
    {
        if self.nan() || other.nan() {
            return false;
        }
        proof {
            lemma_size_orders_as_bits(self, other);
            lemma_size_orders_as_bits(other, self);
            lemma_size_of_zero(self);
            lemma_size_of_zero(other);
        }
        let a = self.magnitude();
        let b = other.magnitude();
        if self.bits >= SIGN_BIT {
            if other.bits >= SIGN_BIT {
                b < a
            } else {
                a != 0 || b != 0
            }
        } else {
            if other.bits >= SIGN_BIT {
                false
            } else {
                a < b
            }
        }
    }

    /// Whether both are numbers and `self` is not the greater.
    pub fn le(self, other: Binary64) -> (at_most: bool)
        ensures
            at_most == self.at_most(other),
    {
        if self.nan() || other.nan() {
            return false;
        }
        !other.lt(self)
    }
}

/// Positive zero.
pub open spec fn zero() -> Binary64 {
    Binary64 { bits: ZERO_BITS }
}

/// Zero is a number, and its value is zero.
pub proof fn lemma_zero_value()
    ensures
        !zero().is_nan(),
        zero().value() == 0,
{
    assert(zero().size() == 0) by (nonlinear_arith)
        requires
            zero().size() == 0 * pow2(0),
    ;
}

/// Only the two zeros have size zero.
pub proof fn lemma_size_of_zero(a: Binary64)
    ensures
        a.size() == 0 <==> a.magnitude_bits() == 0,
{
    lemma_pow2_pos(a.shift());
    let s = a.significand() as int;
    let p = pow2(a.shift()) as int;
    assert(s * p == 0 <==> s == 0) by (nonlinear_arith)
        requires
            0 <= s,
            0 < p,
    ;
}

/// Among the bit patterns up to infinity, the greater pattern has the
/// greater size.
pub proof fn lemma_greater_bits_greater_size(a: Binary64, b: Binary64)
    requires
        a.magnitude_bits() < b.magnitude_bits() <= INFINITY_BITS,
    ensures
        a.size() < b.size(),
{
    let low_exponent = a.exponent_field();
    let high_exponent = b.exponent_field();
    let low_digits = a.significand() as int;
    let high_digits = b.significand() as int;
    let low_power = pow2(a.shift()) as int;
    let high_power = pow2(b.shift()) as int;
    lemma_pow2_pos(a.shift());
    lemma_pow2_pos(b.shift());
    if low_exponent == high_exponent {
        assert(low_digits * low_power < high_digits * low_power) by (nonlinear_arith)
            requires
                low_digits < high_digits,
                0 < low_power,
        ;
    } else {
        let top = FRACTION_END as int;
        assert(top * 1 <= high_digits * high_power) by (nonlinear_arith)
            requires
                top <= high_digits,
                1 <= high_power,
                0 < top,
        ;
        if low_exponent == 0 {
            lemma2_to64();
            assert(low_digits * low_power == low_digits) by (nonlinear_arith)
                requires
                    low_power == 1,
            ;
        } else {
            // Below the next power of two, which is not above the power of `b`.
            let next_power = pow2(low_exponent) as int;
            lemma_pow2_unfold(low_exponent);
            if low_exponent < high_exponent - 1 {
                lemma_pow2_strictly_increases(low_exponent, (high_exponent - 1) as nat);
            }
            assert(low_digits * low_power < top * next_power) by (nonlinear_arith)
                requires
                    low_digits < 2 * top,
                    next_power == 2 * low_power,
                    0 < low_power,
            ;
            assert(top * next_power <= high_digits * high_power) by (nonlinear_arith)
                requires
                    top <= high_digits,
                    next_power <= high_power,
                    0 < top,
                    0 < next_power,
            ;
        }
    }
}

/// Numbers are ordered by size as their bits below the sign are ordered.
pub proof fn lemma_size_orders_as_bits(a: Binary64, b: Binary64)
    requires
        !a.is_nan(),
        !b.is_nan(),
    ensures
        a.magnitude_bits() < b.magnitude_bits() <==> a.size() < b.size(),
        a.magnitude_bits() == b.magnitude_bits() <==> a.size() == b.size(),
{
    if a.magnitude_bits() < b.magnitude_bits() {
        lemma_greater_bits_greater_size(a, b);
    } else if b.magnitude_bits() < a.magnitude_bits() {
        lemma_greater_bits_greater_size(b, a);
    }
}

/// Two numbers have the same value only where they have the same bits, or
/// are the two zeros.
pub proof fn lemma_same_value(a: Binary64, b: Binary64)
    requires
        !a.is_nan(),
        !b.is_nan(),
    ensures
        a.value() == b.value() <==> a.bits == b.bits || (a.magnitude_bits() == 0
            && b.magnitude_bits() == 0),
{
    lemma_size_orders_as_bits(a, b);
    lemma_size_of_zero(a);
    lemma_size_of_zero(b);
}

} // verus!
