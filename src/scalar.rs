use vstd::prelude::*;

verus! {

/// The sign bit of a binary64 pattern.
pub const SIGN_BIT: u64 = 0x8000_0000_0000_0000;

/// The pattern of positive infinity; a larger magnitude is a NaN.
pub const INFINITY_BITS: u64 = 0x7FF0_0000_0000_0000;

/// The pattern of positive zero.
pub const ZERO_BITS: u64 = 0;

/// The pattern of one.
pub const ONE_BITS: u64 = 0x3FF0_0000_0000_0000;

/// The pattern of 1e-5, the tolerance under which two scalars count as equal.
pub const EPSILON_BITS: u64 = 0x3EE4_F8B5_88E3_68F1;

/// A real number of the renderer, held as its IEEE-754 binary64 bit pattern.
///
/// The arithmetic on scalars is done by the host; what the library decides
/// about a scalar (its sign, how it compares, whether it lies in a range) it
/// reads from the pattern, exactly as IEEE-754 defines it. The derived `==`
/// compares patterns, not values: the two zeros differ under it.
#[derive(Clone, Copy, Debug, PartialEq, Eq, Structural)]
pub struct Scalar(pub u64);

impl Scalar {
    /// The pattern with the sign bit cleared.
    pub open spec fn magnitude_bits(self) -> u64 {
        if self.0 >= SIGN_BIT {
            (self.0 - SIGN_BIT) as u64
        } else {
            self.0
        }
    }

    pub open spec fn spec_is_nan(self) -> bool {
        self.magnitude_bits() > INFINITY_BITS
    }

    /// Positive or negative zero.
    pub open spec fn spec_is_zero(self) -> bool {
        self.magnitude_bits() == 0
    }

    /// The place of the pattern in IEEE-754's total order: negative patterns
    /// count down from -1 (negative zero), the others count up from 0.
    pub open spec fn order_key(self) -> int {
        if self.0 >= SIGN_BIT {
            -1 - (self.0 - SIGN_BIT)
        } else {
            self.0 as int
        }
    }

    /// `self < other` as IEEE-754 compares: never with a NaN, and the two
    /// zeros are equal.
    pub open spec fn spec_lt(self, other: Scalar) -> bool {
        &&& !self.spec_is_nan()
        &&& !other.spec_is_nan()
        &&& !(self.spec_is_zero() && other.spec_is_zero())
        &&& self.order_key() < other.order_key()
    }

    /// `self <= other` as IEEE-754 compares.
    pub open spec fn spec_le(self, other: Scalar) -> bool {
        &&& !self.spec_is_nan()
        &&& !other.spec_is_nan()
        &&& (self.spec_is_zero() && other.spec_is_zero() || self.order_key() <= other.order_key())
    }

    /// The value with its sign flipped, which is what negation does to a pattern.
    pub open spec fn spec_neg(self) -> Scalar {
        if self.0 >= SIGN_BIT {
            Scalar((self.0 - SIGN_BIT) as u64)
        } else {
            Scalar((self.0 + SIGN_BIT) as u64)
        }
    }

    /// The absolute value: the pattern with its sign bit cleared.
    pub open spec fn spec_abs(self) -> Scalar {
        Scalar(self.magnitude_bits())
    }

    pub fn zero() -> (r: Scalar)
        ensures
            r.0 == ZERO_BITS,
    {
        Scalar(ZERO_BITS)
    }

    pub fn one() -> (r: Scalar)
        ensures
            r.0 == ONE_BITS,
    {
        Scalar(ONE_BITS)
    }

    fn magnitude(self) -> (r: u64)
        ensures
            r == self.magnitude_bits(),
    {
        if self.0 >= SIGN_BIT {
            self.0 - SIGN_BIT
        } else {
            self.0
        }
    }

    pub fn is_nan(self) -> (r: bool)
        ensures
            r == self.spec_is_nan(),
    {
        self.magnitude() > INFINITY_BITS
    }

    pub fn is_zero(self) -> (r: bool)
        ensures
            r == self.spec_is_zero(),
    {
        self.magnitude() == 0
    }

    /// Compares by the total order alone: `self` comes no later than `other`.
    pub fn total_le(self, other: Scalar) -> (r: bool)
        ensures
            r == (self.order_key() <= other.order_key()),
    {
        if self.0 >= SIGN_BIT {
            if other.0 >= SIGN_BIT {
                other.0 <= self.0
            } else {
                true
            }
        } else {
            if other.0 >= SIGN_BIT {
                false
            } else {
                self.0 <= other.0
            }
        }
    }

    pub fn lt(self, other: Scalar) -> (r: bool)
        ensures
            r == self.spec_lt(other),
    {
        if self.is_nan() || other.is_nan() || (self.is_zero() && other.is_zero()) {
            false
        } else {
            !other.total_le(self)
        }
    }

    pub fn le(self, other: Scalar) -> (r: bool)
        ensures
            r == self.spec_le(other),
    {
        if self.is_nan() || other.is_nan() {
            false
        } else {
            (self.is_zero() && other.is_zero()) || self.total_le(other)
        }
    }

    pub fn abs(self) -> (r: Scalar)
        ensures
            r == self.spec_abs(),
    {
        Scalar(self.magnitude())
    }

    pub fn neg(self) -> (r: Scalar)
        ensures
            r == self.spec_neg(),
    {
        if self.0 >= SIGN_BIT {
            Scalar(self.0 - SIGN_BIT)
        } else {
            Scalar(self.0 + SIGN_BIT)
        }
    }
}

/// Distinct patterns have distinct places in the total order.
pub proof fn lemma_order_key_injective(a: Scalar, b: Scalar)
    requires
        a.order_key() == b.order_key(),
    ensures
        a == b,
{
}

} // verus!
