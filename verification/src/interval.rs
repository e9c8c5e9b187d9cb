//! Ranges of numbers: the window of distances in which a hit counts, and
//! the range that a colour channel is clamped into.

use vstd::prelude::*;
use crate::scalar::Scalar;

verus! {

/// The range from `min` to `max`.
#[derive(Debug, Clone, Copy)]
pub struct Interval {
    pub min: Scalar,
    pub max: Scalar,
}

impl Interval {
    /// `val` lies in the range, the bounds included.
    pub open spec fn holds(self, val: Scalar) -> bool {
        self.min.at_most(val) && val.at_most(self.max)
    }

    /// `val` lies in the range, the bounds excluded.
    pub open spec fn encloses(self, val: Scalar) -> bool {
        self.min.less(val) && val.less(self.max)
    }

    /// The range from positive to negative infinity, which holds nothing.
    pub fn empty() -> (r: Interval)
        ensures
            r.min.bits == crate::scalar::INFINITY_BITS,
            r.max.bits == crate::scalar::INFINITY_BITS + crate::scalar::SIGN_BIT,
    {
        Interval { min: Scalar::infinity(), max: Scalar::neg_infinity() }
    }

    /// The range from negative to positive infinity, which holds every
    /// number.
    pub fn universe() -> (r: Interval)
        ensures
            r.min.bits == crate::scalar::INFINITY_BITS + crate::scalar::SIGN_BIT,
            r.max.bits == crate::scalar::INFINITY_BITS,
    {
        Interval { min: Scalar::neg_infinity(), max: Scalar::infinity() }
    }

    /// The range between the two bounds.
    pub fn new(min: Scalar, max: Scalar) -> (r: Interval)
        ensures
            r.min == min,
            r.max == max,
    {
        Interval { min, max }
    }

    /// Whether `min <= val <= max`.
    pub fn contains(&self, val: Scalar) -> (r: bool)
        ensures
            r == self.holds(val),
    {
        self.min.le(&val) && val.le(&self.max)
    }

    /// Whether `min < val < max`.
    pub fn surrounds(&self, val: Scalar) -> (r: bool)
        ensures
            r == self.encloses(val),
    {
        self.min.lt(&val) && val.lt(&self.max)
    }

    /// The number of the range that is nearest to `x`; a NaN is handed
    /// back as it is. The bounds must be in order.
    pub fn clamp(&self, x: Scalar) -> (r: Scalar)
        requires
            self.min.at_most(self.max),
        ensures
            r == (if x.less(self.min) {
                self.min
            } else if self.max.less(x) {
                self.max
            } else {
                x
            }),
            !x.nan() ==> self.holds(r),
    {
        x.clamp(&self.min, &self.max)
    }
}

/// The empty range holds no number, and the universe every number.
pub proof fn lemma_empty_and_universe(val: Scalar)
    ensures
        !(Interval {
            min: Scalar { bits: crate::scalar::INFINITY_BITS },
            max: Scalar { bits: 0xff80_0000 },
        }).holds(val),
        !val.nan() ==> (Interval {
            min: Scalar { bits: 0xff80_0000 },
            max: Scalar { bits: crate::scalar::INFINITY_BITS },
        }).holds(val),
{
}

} // verus!
