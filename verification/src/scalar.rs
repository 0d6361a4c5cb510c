//! IEEE 754 binary64 numbers, carried by their bit patterns.
//!
//! Rounding arithmetic is the caller's business. What is decided here is
//! everything that the encoding alone settles: sign, order, negation,
//! absolute value, minimum and clamping, each exactly as the standard
//! defines it.

use vstd::prelude::*;

verus! {

/// The bit that holds the sign.
pub const SIGN_BIT: u64 = 0x8000_0000_0000_0000;

/// The encoding of positive infinity; every larger magnitude is a NaN.
pub const INFINITY_BITS: u64 = 0x7ff0_0000_0000_0000;

/// The encoding of one.
pub const ONE_BITS: u64 = 0x3ff0_0000_0000_0000;

/// Two to the 52nd: the weight of the exponent field's lowest bit, and the
/// hidden bit of a normal number's significand.
pub const HIDDEN_BIT: u64 = 0x10_0000_0000_0000;

/// A binary64 number, held as the 64 bits of its encoding.
#[derive(Clone, Copy, Debug)]
pub struct Scalar {
    pub bits: u64,
}

impl Scalar {
    /// Whether the sign bit is set. True of negative zero too.
    pub open spec fn negative(self) -> bool {
        self.bits >= SIGN_BIT
    }

    /// The encoding with the sign bit cleared.
    pub open spec fn magnitude(self) -> int {
        if self.bits >= SIGN_BIT {
            self.bits - SIGN_BIT
        } else {
            self.bits as int
        }
    }

    /// Whether the encoding stands for no number.
    pub open spec fn nan(self) -> bool {
        self.magnitude() > INFINITY_BITS
    }

    /// The exponent field.
    pub open spec fn exponent(self) -> int {
        self.magnitude() / (HIDDEN_BIT as int)
    }

    /// The fraction field.
    pub open spec fn fraction(self) -> int {
        self.magnitude() % (HIDDEN_BIT as int)
    }

    /// The significand of a finite number, in units of two to the -52nd.
    pub open spec fn significand(self) -> int {
        if self.exponent() == 0 {
            self.fraction()
        } else {
            HIDDEN_BIT + self.fraction()
        }
    }

    /// The power of two that scales the significand, counted from -1075: a
    /// finite number's absolute value is
    /// `significand() * 2^(scale() - 1075)`.
    pub open spec fn scale(self) -> nat {
        if self.exponent() == 0 {
            1
        } else {
            self.exponent() as nat
        }
    }

    /// The place of a number on the number line: numbers compare as their
    /// ranks do. Both zeros have rank 0, the infinities the two extreme ranks.
    /// Meaningless for a NaN.
    pub open spec fn rank(self) -> int {
        if self.negative() {
            -self.magnitude()
        } else {
            self.magnitude()
        }
    }

    /// `self < rhs` as the standard has it: false as soon as either is a NaN.
    pub open spec fn less(self, rhs: Scalar) -> bool {
        !self.nan() && !rhs.nan() && self.rank() < rhs.rank()
    }

    /// `self <= rhs` as the standard has it: false as soon as either is a NaN.
    pub open spec fn at_most(self, rhs: Scalar) -> bool {
        !self.nan() && !rhs.nan() && self.rank() <= rhs.rank()
    }

    /// The number with its sign bit flipped.
    pub open spec fn negated(self) -> Scalar {
        Scalar {
            bits: if self.bits >= SIGN_BIT {
                (self.bits - SIGN_BIT) as u64
            } else {
                (self.bits + SIGN_BIT) as u64
            },
        }
    }

    /// The number with its sign bit cleared.
    pub open spec fn absolute(self) -> Scalar {
        Scalar { bits: self.magnitude() as u64 }
    }

    /// The smaller of two numbers. Of a number and a NaN it is the number;
    /// of two equal numbers, the first.
    pub open spec fn lesser(self, rhs: Scalar) -> Scalar {
        if self.nan() || rhs.less(self) {
            rhs
        } else {
            self
        }
    }

    pub fn from_bits(bits: u64) -> (r: Scalar)
        ensures
            r.bits == bits,
    {
        Scalar { bits }
    }

    pub fn to_bits(self) -> (r: u64)
        ensures
            r == self.bits,
    {
        self.bits
    }

    /// Positive zero.
    pub fn zero() -> (r: Scalar)
        ensures
            r.bits == 0,
    {
        Scalar { bits: 0 }
    }

    /// One.
    pub fn one() -> (r: Scalar)
        ensures
            r.bits == ONE_BITS,
    {
        Scalar { bits: ONE_BITS }
    }

    pub fn is_sign_negative(self) -> (r: bool)
        ensures
            r == self.negative(),
    {
        self.bits >= SIGN_BIT
    }

    pub fn is_nan(self) -> (r: bool)
        ensures
            r == self.nan(),
    {
        self.abs().bits > INFINITY_BITS
    }

    pub fn abs(self) -> (r: Scalar)
        ensures
            r == self.absolute(),
            !r.negative(),
            r.magnitude() == self.magnitude(),
    {
        if self.bits >= SIGN_BIT {
            Scalar { bits: self.bits - SIGN_BIT }
        } else {
            self
        }
    }

    pub fn neg(self) -> (r: Scalar)
        ensures
            r == self.negated(),
            r.negative() == !self.negative(),
            r.magnitude() == self.magnitude(),
    {
        if self.bits >= SIGN_BIT {
            Scalar { bits: self.bits - SIGN_BIT }
        } else {
            Scalar { bits: self.bits + SIGN_BIT }
        }
    }

    pub fn lt(self, rhs: Scalar) -> (r: bool)
        ensures
            r == self.less(rhs),
    {
        if self.is_nan() || rhs.is_nan() {
            return false;
        }
        let a: u64 = self.abs().bits;
        let b: u64 = rhs.abs().bits;
        if self.is_sign_negative() {
            if rhs.is_sign_negative() {
                b < a
            } else {
                a != 0 || b != 0
            }
        } else {
            !rhs.is_sign_negative() && a < b
        }
    }

    pub fn le(self, rhs: Scalar) -> (r: bool)
        ensures
            r == self.at_most(rhs),
    {
        if self.is_nan() || rhs.is_nan() {
            return false;
        }
        let a: u64 = self.abs().bits;
        let b: u64 = rhs.abs().bits;
        if self.is_sign_negative() {
            !rhs.is_sign_negative() || b <= a
        } else if rhs.is_sign_negative() {
            a == 0 && b == 0
        } else {
            a <= b
        }
    }

    pub fn min(self, rhs: Scalar) -> (r: Scalar)
        ensures
            r == self.lesser(rhs),
    {
        if self.is_nan() || rhs.lt(self) {
            rhs
        } else {
            self
        }
    }

    pub fn gt(self, rhs: Scalar) -> (r: bool)
        ensures
            r == rhs.less(self),
    {
        rhs.lt(self)
    }

    pub fn ge(self, rhs: Scalar) -> (r: bool)
        ensures
            r == rhs.at_most(self),
    {
        rhs.le(self)
    }
}

/// What `clamp` returns: the bound that `val` lies beyond, else `val` itself.
/// A NaN lies beyond neither bound.
pub open spec fn clamped(val: Scalar, bounds: (Scalar, Scalar)) -> Scalar {
    if val.less(bounds.0) {
        bounds.0
    } else if bounds.1.less(val) {
        bounds.1
    } else {
        val
    }
}

/// Brings `val` into the interval `bounds`.
pub fn clamp(val: Scalar, bounds: (Scalar, Scalar)) -> (r: Scalar)
    ensures
        r == clamped(val, bounds),
{
    if val.lt(bounds.0) {
        bounds.0
    } else if val.gt(bounds.1) {
        bounds.1
    } else {
        val
    }
}

/// A clamped number lies within the bounds, whenever the bounds are in order
/// and the number is one.
pub proof fn clamp_stays_within(val: Scalar, bounds: (Scalar, Scalar))
    requires
        !val.nan(),
        bounds.0.at_most(bounds.1),
    ensures
        bounds.0.at_most(clamped(val, bounds)),
        clamped(val, bounds).at_most(bounds.1),
{
}

} // verus!
