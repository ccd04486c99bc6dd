//! Double-precision numbers and their order.
use vstd::prelude::*;

verus! {

/// The bit that holds the sign of a double-precision number.
pub const SIGN_BIT: u64 = 0x8000_0000_0000_0000;

/// The bits of positive infinity. Larger magnitudes are not numbers.
pub const INFINITY_BITS: u64 = 0x7FF0_0000_0000_0000;

/// A double-precision number, held as the bits of its IEEE 754 encoding.
#[derive(Clone, Copy, Debug, PartialEq, Eq, Structural)]
pub struct Double {
    pub bits: u64,
}

impl Double {
    /// The encoding without its sign.
    pub open spec fn magnitude(self) -> u64 {
        if self.bits >= SIGN_BIT {
            (self.bits - SIGN_BIT) as u64
        } else {
            self.bits
        }
    }

    /// The encoding is of a number.
    pub open spec fn is_number(self) -> bool {
        self.magnitude() <= INFINITY_BITS
    }

    /// Where the number stands among all numbers. Both zeros have rank zero.
    pub open spec fn rank(self) -> int {
        if self.bits >= SIGN_BIT {
            -(self.magnitude() as int)
        } else {
            self.magnitude() as int
        }
    }

    /// Both are numbers and `self` is at most `other`.
    pub open spec fn at_most_spec(self, other: Double) -> bool {
        self.is_number() && other.is_number() && self.rank() <= other.rank()
    }

    fn split(&self) -> (r: (bool, u64))
        ensures
            r.0 == (self.bits >= SIGN_BIT),
            r.1 == self.magnitude(),
    {
        if self.bits >= SIGN_BIT {
            (true, self.bits - SIGN_BIT)
        } else {
            (false, self.bits)
        }
    }

    /// Whether both are numbers and `self` is at most `other`.
    pub fn at_most(&self, other: &Double) -> (r: bool)
        ensures
            r == self.at_most_spec(*other),
    {
        let (a_negative, a) = self.split();
        let (b_negative, b) = other.split();
        if a > INFINITY_BITS || b > INFINITY_BITS {
            false
        } else if a_negative && b_negative {
            a >= b
        } else if a_negative {
            true
        } else if b_negative {
            a == 0 && b == 0
        } else {
            a <= b
        }
    }
}

/// Among numbers, being at most is reflexive, transitive and total; what is no number
/// is at most nothing.
pub proof fn at_most_orders_numbers(a: Double, b: Double, c: Double)
    ensures
        a.is_number() ==> a.at_most_spec(a),
        a.is_number() && b.is_number() ==> a.at_most_spec(b) || b.at_most_spec(a),
        a.at_most_spec(b) && b.at_most_spec(c) ==> a.at_most_spec(c),
        !a.is_number() ==> !a.at_most_spec(b) && !b.at_most_spec(a),
{
}

/// How two numbers compare by their signs and magnitudes: of non-negative ones the one
/// with smaller bits is smaller, of negative ones the one with larger bits, a negative
/// one is at most a non-negative one, and the two zeros are equal.
pub proof fn numbers_compare_by_sign_and_magnitude(a: Double, b: Double)
    requires
        a.bits % 0x8000_0000_0000_0000 <= 0x7FF0_0000_0000_0000,
        b.bits % 0x8000_0000_0000_0000 <= 0x7FF0_0000_0000_0000,
    ensures
        a.bits < 0x8000_0000_0000_0000 && b.bits < 0x8000_0000_0000_0000 ==> (a.at_most_spec(b)
            <==> a.bits <= b.bits),
        a.bits >= 0x8000_0000_0000_0000 && b.bits >= 0x8000_0000_0000_0000 ==> (a.at_most_spec(b)
            <==> a.bits >= b.bits),
        a.bits >= 0x8000_0000_0000_0000 && b.bits < 0x8000_0000_0000_0000 ==> a.at_most_spec(b),
        a.bits < 0x8000_0000_0000_0000 && b.bits >= 0x8000_0000_0000_0000 ==> (a.at_most_spec(b)
            <==> a.bits == 0 && b.bits == 0x8000_0000_0000_0000),
{
}

/// What is no number, its magnitude being above that of infinity, compares with nothing.
pub proof fn what_is_no_number_compares_with_nothing(a: Double, b: Double)
    requires
        a.bits % 0x8000_0000_0000_0000 > 0x7FF0_0000_0000_0000,
    ensures
        !a.at_most_spec(b),
        !b.at_most_spec(a),
{
}

} // verus!
