//! IEEE-754 binary64 values carried by their bit patterns.
//!
//! The topology model stores its physical quantities (distances, fidelities,
//! rates, times) as binary64 numbers. The library never computes with them; it
//! only compares them, and it does so exactly as the hardware comparison of two
//! binary64 numbers does: NaN is unordered and unequal to everything, the two
//! zeros are equal, and every other pair is ordered by value.
use vstd::prelude::*;

verus! {

/// A binary64 number, held as its 64-bit IEEE-754 encoding.
#[derive(Clone, Copy, Debug)]
pub struct Binary64 {
    pub bits: u64,
}

/// The sign bit of an encoding.
pub open spec fn sign_set(bits: u64) -> bool {
    bits >= 0x8000_0000_0000_0000
}

/// The encoding without its sign bit: exponent and fraction.
pub open spec fn magnitude(bits: u64) -> int {
    if sign_set(bits) {
        bits - 0x8000_0000_0000_0000
    } else {
        bits as int
    }
}

/// The largest magnitude that is not a NaN: that of infinity.
pub open spec fn infinity_magnitude() -> int {
    0x7FF0_0000_0000_0000
}

/// NaN: all exponent bits set and a nonzero fraction.
pub open spec fn is_nan_bits(bits: u64) -> bool {
    magnitude(bits) > infinity_magnitude()
}

/// A key that orders non-NaN encodings as their values are ordered: positive
/// encodings grow with their values, negative ones shrink, and both zeros map
/// to 0.
pub open spec fn order_key(bits: u64) -> int {
    if sign_set(bits) {
        -magnitude(bits)
    } else {
        magnitude(bits)
    }
}

/// The three outcomes of comparing two ordered values.
#[derive(Clone, Copy, Debug, PartialEq, Eq, Structural)]
pub enum Order {
    Less,
    Equal,
    Greater,
}

impl Binary64 {
    /// Whether this encoding is a NaN.
    pub open spec fn nan(self) -> bool {
        is_nan_bits(self.bits)
    }

    /// The order key of this encoding.
    pub open spec fn key(self) -> int {
        order_key(self.bits)
    }

    /// `self == other` on binary64 numbers.
    pub open spec fn same_value(self, other: Binary64) -> bool {
        !self.nan() && !other.nan() && self.key() == other.key()
    }

    /// `self < other` on binary64 numbers.
    pub open spec fn below(self, other: Binary64) -> bool {
        !self.nan() && !other.nan() && self.key() < other.key()
    }

    /// `self <= other` on binary64 numbers.
    pub open spec fn at_most(self, other: Binary64) -> bool {
        !self.nan() && !other.nan() && self.key() <= other.key()
    }

    /// `partial_cmp` on binary64 numbers: `None` when either is NaN.
    pub open spec fn order(self, other: Binary64) -> Option<Order> {
        if self.nan() || other.nan() {
            None
        } else if self.key() < other.key() {
            Some(Order::Less)
        } else if self.key() == other.key() {
            Some(Order::Equal)
        } else {
            Some(Order::Greater)
        }
    }

    /// The encoding of positive zero.
    pub open spec fn spec_zero() -> Binary64 {
        Binary64 { bits: 0 }
    }

    /// The encoding of one.
    pub open spec fn spec_one() -> Binary64 {
        Binary64 { bits: 0x3FF0_0000_0000_0000 }
    }

    /// Positive zero.
    pub fn zero() -> (r: Binary64)
        ensures
            r == Binary64::spec_zero(),
            r.bits == 0,
            !r.nan(),
            r.key() == 0,
    {
        Binary64 { bits: 0 }
    }

    /// One.
    pub fn one() -> (r: Binary64)
        ensures
            r == Binary64::spec_one(),
            r.bits == 0x3FF0_0000_0000_0000,
            !r.nan(),
            r.key() == 0x3FF0_0000_0000_0000,
    {
        Binary64 { bits: 0x3FF0_0000_0000_0000 }
    }

    /// Whether this is a NaN.
    pub fn is_nan(&self) -> (r: bool)
        ensures
            r == self.nan(),
    {
        if self.bits >= 0x8000_0000_0000_0000 {
            self.bits - 0x8000_0000_0000_0000 > 0x7FF0_0000_0000_0000
        } else {
            self.bits > 0x7FF0_0000_0000_0000
        }
    }

    /// The order key of a non-NaN encoding, as a signed integer.
    fn key_of(&self) -> (r: i64)
        requires
            !self.nan(),
        ensures
            r as int == self.key(),
    {
        if self.bits >= 0x8000_0000_0000_0000 {
            let m: u64 = self.bits - 0x8000_0000_0000_0000;
            -(m as i64)
        } else {
            self.bits as i64
        }
    }

    /// The comparison `partial_cmp` performs on two binary64 numbers.
    pub fn compare(&self, other: &Binary64) -> (r: Option<Order>)
        ensures
            r == self.order(*other),
    {
        if self.is_nan() || other.is_nan() {
            None
        } else {
            let a = self.key_of();
            let b = other.key_of();
            if a < b {
                Some(Order::Less)
            } else if a == b {
                Some(Order::Equal)
            } else {
                Some(Order::Greater)
            }
        }
    }

    /// `self == other` on binary64 numbers.
    pub fn equals(&self, other: &Binary64) -> (r: bool)
        ensures
            r == self.same_value(*other),
    {
        match self.compare(other) {
            Some(Order::Equal) => true,
            _ => false,
        }
    }

    /// `self < other` on binary64 numbers.
    pub fn less_than(&self, other: &Binary64) -> (r: bool)
        ensures
            r == self.below(*other),
    {
        match self.compare(other) {
            Some(Order::Less) => true,
            _ => false,
        }
    }

    /// `self <= other` on binary64 numbers.
    pub fn less_or_equal(&self, other: &Binary64) -> (r: bool)
        ensures
            r == self.at_most(*other),
    {
        match self.compare(other) {
            Some(Order::Less) => true,
            Some(Order::Equal) => true,
            _ => false,
        }
    }
}

/// `==` on optional binary64 numbers, as `Option<f64>` compares them.
pub open spec fn same_optional(a: Option<Binary64>, b: Option<Binary64>) -> bool {
    match (a, b) {
        (None, None) => true,
        (Some(x), Some(y)) => x.same_value(y),
        _ => false,
    }
}

/// `==` on optional binary64 numbers.
pub fn optional_equals(a: &Option<Binary64>, b: &Option<Binary64>) -> (r: bool)
    ensures
        r == same_optional(*a, *b),
{
    match (a, b) {
        (None, None) => true,
        (Some(x), Some(y)) => x.equals(y),
        _ => false,
    }
}

} // verus!
