use vstd::prelude::*;

verus! {

/// The place of the sign in a bit pattern.
pub const SIGN_BIT: u64 = 0x8000_0000_0000_0000;

/// The bit pattern of positive infinity; a larger magnitude is not a number.
pub const INFINITY_BITS: u64 = 0x7ff0_0000_0000_0000;

/// A double-precision value, held by its IEEE 754 bit pattern.
///
/// Bit patterns can be kept, compared and handed on; arithmetic on them is the
/// business of whoever holds a floating-point unit.
#[derive(Clone, Copy, Debug, PartialEq, Eq, Structural)]
pub struct Double {
    pub bits: u64,
}

impl Double {
    /// The pattern without its sign.
    pub open spec fn magnitude(self) -> int {
        if self.bits < SIGN_BIT {
            self.bits as int
        } else {
            self.bits - SIGN_BIT
        }
    }

    /// Whether the pattern stands for no number.
    pub open spec fn not_a_number(self) -> bool {
        self.magnitude() > INFINITY_BITS
    }

    /// An integer that grows with the value. Both zeros have rank zero.
    pub open spec fn rank(self) -> int {
        if self.bits < SIGN_BIT {
            self.magnitude()
        } else {
            -self.magnitude()
        }
    }

    /// The smaller of two values, where a value that is no number gives way.
    pub open spec fn smaller(self, other: Double) -> Double {
        if self.not_a_number() {
            other
        } else if other.not_a_number() || self.rank() <= other.rank() {
            self
        } else {
            other
        }
    }

    /// The larger of two values, where a value that is no number gives way.
    pub open spec fn larger(self, other: Double) -> Double {
        if self.not_a_number() {
            other
        } else if other.not_a_number() || self.rank() >= other.rank() {
            self
        } else {
            other
        }
    }

    /// Zero.
    pub fn zero() -> (value: Double)
        ensures
            value == (Double { bits: 0 }),
    {
        Double { bits: 0 }
    }

    /// Tells whether the pattern stands for no number.
    pub fn is_nan(self) -> (nan: bool)
        ensures
            nan == self.not_a_number(),
    {
        if self.bits < SIGN_BIT {
            self.bits > INFINITY_BITS
        } else {
            self.bits - SIGN_BIT > INFINITY_BITS
        }
    }

    /// Tells whether this value ranks below another.
    fn below(self, other: Double) -> (below: bool)
        ensures
            below == (self.rank() < other.rank()),
    {
        if self.bits < SIGN_BIT {
            other.bits < SIGN_BIT && self.bits < other.bits
        } else if other.bits < SIGN_BIT {
            self.bits != SIGN_BIT || other.bits != 0
        } else {
            self.bits > other.bits
        }
    }

    /// Picks the smaller of two values; of equal ones, this one.
    pub fn min(self, other: Double) -> (least: Double)
        ensures
            least == self.smaller(other),
    {
        if self.is_nan() {
            other
        } else if other.is_nan() || !other.below(self) {
            self
        } else {
            other
        }
    }

    /// Picks the larger of two values; of equal ones, this one.
    pub fn max(self, other: Double) -> (greatest: Double)
        ensures
            greatest == self.larger(other),
    {
        if self.is_nan() {
            other
        } else if other.is_nan() || !self.below(other) {
            self
        } else {
            other
        }
    }
}

/// Values without a sign rank as their bit patterns do, values with a sign rank
/// the other way round and no higher than those, and patterns beyond those of the
/// two infinities are no numbers.
pub proof fn law_rank_follows_the_bits(a: Double, b: Double)
    ensures
        a.bits < 0x8000_0000_0000_0000 ==> a.rank() == a.bits,
        a.bits >= 0x8000_0000_0000_0000 ==> a.rank() == 0x8000_0000_0000_0000 - a.bits,
        a.not_a_number() <==> 0x7ff0_0000_0000_0000 < a.bits < 0x8000_0000_0000_0000 || a.bits
            > 0xfff0_0000_0000_0000,
{
}

/// The smaller and the larger of two numbers are the two numbers, in order; where
/// one of two values is no number, both are the other one.
pub proof fn law_smaller_and_larger_are_the_two(a: Double, b: Double)
    ensures
        a.smaller(b) == a || a.smaller(b) == b,
        a.larger(b) == a || a.larger(b) == b,
        !a.not_a_number() && !b.not_a_number() ==> {
            &&& a.smaller(b).rank() <= a.rank() && a.smaller(b).rank() <= b.rank()
            &&& a.larger(b).rank() >= a.rank() && a.larger(b).rank() >= b.rank()
        },
        a.not_a_number() ==> a.smaller(b) == b && a.larger(b) == b,
        b.not_a_number() && !a.not_a_number() ==> a.smaller(b) == a && a.larger(b) == a,
{
}

} // verus!
