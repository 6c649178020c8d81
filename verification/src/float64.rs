//! Double-precision prices and thresholds, carried as their IEEE 754 bits.
use vstd::prelude::*;

verus! {

/// The sign bit of a double.
pub const SIGN_BIT: u64 = 0x8000_0000_0000_0000;

/// The bits of positive infinity: every larger magnitude is a NaN.
pub const INFINITY_BITS: u64 = 0x7ff0_0000_0000_0000;

/// The bits of `1.0`.
pub const ONE_BITS: u64 = 0x3ff0_0000_0000_0000;

/// A double-precision number, held as its bit pattern.
///
/// Equality of two values is equality of their bits; [`Float64::num_eq`] is the
/// numeric comparison.
#[derive(Debug, Clone, Copy, PartialEq, Eq, PartialOrd, Ord, Hash, Structural)]
pub struct Float64 {
    pub bits: u64,
}

impl Float64 {
    /// The bits without the sign: exponent first, then mantissa, so that larger
    /// numbers have larger magnitudes.
    pub open spec fn magnitude(self) -> int {
        if self.bits < SIGN_BIT {
            self.bits as int
        } else {
            self.bits - SIGN_BIT
        }
    }

    /// Not a number: the exponent is all ones and the mantissa is not zero.
    pub open spec fn nan(self) -> bool {
        self.magnitude() > INFINITY_BITS
    }

    /// Neither an infinity nor a NaN.
    pub open spec fn finite(self) -> bool {
        self.magnitude() < INFINITY_BITS
    }

    /// Positive or negative zero.
    pub open spec fn zero(self) -> bool {
        self.magnitude() == 0
    }

    /// The position of a number in the numeric order; both zeros stand at 0.
    pub open spec fn rank(self) -> int {
        if self.bits < SIGN_BIT {
            self.magnitude()
        } else {
            -self.magnitude()
        }
    }

    /// Numeric equality: a NaN equals nothing and the two zeros are equal.
    pub open spec fn num_eq(self, other: Float64) -> bool {
        &&& !self.nan()
        &&& !other.nan()
        &&& self.rank() == other.rank()
    }

    /// Numeric `<`: false as soon as a NaN takes part.
    pub open spec fn num_lt(self, other: Float64) -> bool {
        &&& !self.nan()
        &&& !other.nan()
        &&& self.rank() < other.rank()
    }

    /// The smaller of two numbers; a NaN gives way to the other operand.
    pub open spec fn min_of(self, other: Float64) -> Float64 {
        if self.nan() {
            other
        } else if other.num_lt(self) {
            other
        } else {
            self
        }
    }

    /// The number with these bits.
    pub fn from_bits(bits: u64) -> (number: Float64)
        ensures
            number.bits == bits,
    {
        Float64 { bits }
    }

    /// The bits of this number.
    pub fn to_bits(&self) -> (bits: u64)
        ensures
            bits == self.bits,
    {
        self.bits
    }

    fn exec_magnitude(&self) -> (magnitude: u64)
        ensures
            magnitude == self.magnitude(),
    {
        if self.bits < SIGN_BIT {
            self.bits
        } else {
            self.bits - SIGN_BIT
        }
    }

    /// Whether this is not a number.
    pub fn is_nan(&self) -> (nan: bool)
        ensures
            nan == self.nan(),
    {
        self.exec_magnitude() > INFINITY_BITS
    }

    /// Whether this is neither an infinity nor a NaN.
    pub fn is_finite(&self) -> (finite: bool)
        ensures
            finite == self.finite(),
    {
        self.exec_magnitude() < INFINITY_BITS
    }

    /// Whether this is a zero of either sign.
    pub fn is_zero(&self) -> (zero: bool)
        ensures
            zero == self.zero(),
    {
        self.exec_magnitude() == 0
    }

    /// Whether this is below zero; negative zero and NaNs are not.
    pub fn is_below_zero(&self) -> (below: bool)
        ensures
            below == self.num_lt(Float64 { bits: 0 }),
    {
        self.bits > SIGN_BIT && !self.is_nan()
    }

    /// Numeric equality.
    pub fn equals(&self, other: &Float64) -> (equal: bool)
        ensures
            equal == self.num_eq(*other),
    {
        if self.is_nan() || other.is_nan() {
            false
        } else {
            self.bits == other.bits || (self.is_zero() && other.is_zero())
        }
    }

    /// Numeric `<`.
    pub fn less_than(&self, other: &Float64) -> (less: bool)
        ensures
            less == self.num_lt(*other),
    {
        if self.is_nan() || other.is_nan() {
            false
        } else if self.bits < SIGN_BIT {
            other.bits < SIGN_BIT && self.bits < other.bits
        } else if other.bits < SIGN_BIT {
            self.bits > SIGN_BIT || other.bits > 0
        } else {
            other.bits < self.bits
        }
    }

    /// The smaller of two numbers; a NaN gives way to the other operand.
    pub fn lesser(&self, other: &Float64) -> (least: Float64)
        ensures
            least == self.min_of(*other),
    {
        if self.is_nan() {
            *other
        } else if other.less_than(self) {
            *other
        } else {
            *self
        }
    }
}

/// What the bits say: an exponent of all ones is an infinity or a NaN, and the two zeros
/// differ in their sign alone.
pub proof fn law_bits_tell_kinds(number: Float64)
    ensures
        number.zero() <==> number.bits == 0 || number.bits == 0x8000_0000_0000_0000,
        number.finite() <==> number.bits < 0x7ff0_0000_0000_0000 || 0x8000_0000_0000_0000
            <= number.bits < 0xfff0_0000_0000_0000,
        number.nan() <==> 0x7ff0_0000_0000_0000 < number.bits < 0x8000_0000_0000_0000
            || number.bits > 0xfff0_0000_0000_0000,
        !(number.nan() && number.finite()),
{
}

/// Two numbers that are no NaNs are equal, or one is below the other; with a NaN they are
/// neither. Numbers below zero grow as their bits shrink.
pub proof fn law_numbers_are_ordered(left: Float64, right: Float64)
    ensures
        left.nan() || right.nan() ==> !left.num_eq(right) && !left.num_lt(right),
        !left.nan() && !right.nan() ==> left.num_eq(right) || left.num_lt(right) || right.num_lt(
            left,
        ),
        !(left.num_eq(right) && left.num_lt(right)),
        !(left.num_lt(right) && right.num_lt(left)),
        left.num_eq(right) <==> !left.nan() && !right.nan() && (left.bits == right.bits || (
        left.zero() && right.zero())),
        left.num_lt(right) && left.bits < 0x8000_0000_0000_0000 ==> left.bits < right.bits
            < 0x8000_0000_0000_0000,
        left.bits < right.bits <= 0x7ff0_0000_0000_0000 ==> left.num_lt(right),
        0x8000_0000_0000_0000 <= right.bits < left.bits <= 0xfff0_0000_0000_0000
            ==> left.num_lt(right),
        0x8000_0000_0000_0000 < left.bits <= 0xfff0_0000_0000_0000 && right.bits
            <= 0x7ff0_0000_0000_0000 ==> left.num_lt(right),
{
}

/// The order of numbers is transitive.
pub proof fn law_order_is_transitive(low: Float64, middle: Float64, high: Float64)
    requires
        low.num_lt(middle),
        middle.num_lt(high),
    ensures
        low.num_lt(high),
{
}

/// The smaller of two numbers is one of them, is not above either, and is a NaN only where
/// both are.
pub proof fn law_smaller_of_two(left: Float64, right: Float64)
    ensures
        left.min_of(right) == left || left.min_of(right) == right,
        !left.num_lt(left.min_of(right)),
        !right.num_lt(left.min_of(right)),
        left.min_of(right).nan() <==> left.nan() && right.nan(),
{
}

} // verus!
