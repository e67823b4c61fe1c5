//! Relevance scores: single-precision numbers, held and compared by their bits.
use vstd::prelude::*;

verus! {

/// A single-precision number, as the bits that IEEE 754 gives it.
#[derive(Debug, Clone, Copy, PartialEq, Eq, Structural)]
pub struct Score {
    pub bits: u32,
}

impl Score {
    /// The bits without the sign.
    pub open spec fn magnitude(self) -> int {
        if self.bits >= 0x8000_0000 {
            self.bits - 0x8000_0000
        } else {
            self.bits as int
        }
    }

    /// Whether the bits stand for no number.
    pub open spec fn is_nan(self) -> bool {
        self.magnitude() > 0x7f80_0000
    }

    /// The place in the order of numbers. Both zeros have the place 0, and bits that stand for no
    /// number come beyond the infinities.
    pub open spec fn place(self) -> int {
        if self.bits >= 0x8000_0000 {
            -self.magnitude()
        } else {
            self.magnitude()
        }
    }

    /// Whether this is a number, as is `other`, and not less than it.
    pub open spec fn at_least(self, other: Score) -> bool {
        !self.is_nan() && !other.is_nan() && self.place() >= other.place()
    }

    /// Whether the bits stand for no number.
    pub fn nan(self) -> (r: bool)
        ensures
            r == self.is_nan(),
    {
        let magnitude: u32 = if self.bits >= 0x8000_0000 {
            self.bits - 0x8000_0000
        } else {
            self.bits
        };
        magnitude > 0x7f80_0000
    }

    /// The place in the order of numbers.
    pub fn rank(self) -> (r: i64)
        ensures
            r == self.place(),
    {
        if self.bits >= 0x8000_0000 {
            -((self.bits - 0x8000_0000) as i64)
        } else {
            self.bits as i64
        }
    }

    /// Whether this is a number, as is `other`, and not less than it.
    pub fn reaches(self, other: Score) -> (r: bool)
        ensures
            r == self.at_least(other),
    {
        !self.nan() && !other.nan() && self.rank() >= other.rank()
    }
}

} // verus!
