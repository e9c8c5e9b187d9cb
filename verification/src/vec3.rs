//! Triples of numbers: points, directions and linear RGB colours.

use vstd::prelude::*;
use vstd::std_specs::ops::NegSpecImpl;
use core::ops::Neg;
use crate::scalar::Scalar;

verus! {

/// Below this absolute value a component counts as zero: the encoding of
/// 1e-8.
pub const NEAR_ZERO_BITS: u32 = 0x322b_cc77;

/// Three components, read as a point, a direction or a colour.
#[derive(Debug, Clone, Copy)]
pub struct Vec3 {
    pub x: Scalar,
    pub y: Scalar,
    pub z: Scalar,
}

/// A linear RGB colour: red in `x`, green in `y`, blue in `z`.
pub type Color = Vec3;

/// A point in space.
pub type Point3 = Vec3;

impl Vec3 {
    /// Every component is a number of absolute value below 1e-8.
    pub open spec fn vanishing(self) -> bool {
        &&& !self.x.nan() && self.x.magnitude() < NEAR_ZERO_BITS
        &&& !self.y.nan() && self.y.magnitude() < NEAR_ZERO_BITS
        &&& !self.z.nan() && self.z.magnitude() < NEAR_ZERO_BITS
    }

    /// The components with their signs flipped.
    pub open spec fn opposite(self) -> Vec3 {
        Vec3 { x: self.x.flipped(), y: self.y.flipped(), z: self.z.flipped() }
    }

    /// The triple of the three components.
    pub fn new(x: Scalar, y: Scalar, z: Scalar) -> (r: Vec3)
        ensures
            r.x == x,
            r.y == y,
            r.z == z,
    {
        Vec3 { x, y, z }
    }

    /// The triple of three encodings.
    pub fn from_bits(x: u32, y: u32, z: u32) -> (r: Vec3)
        ensures
            r.x.bits == x,
            r.y.bits == y,
            r.z.bits == z,
    {
        Vec3 { x: Scalar::from_bits(x), y: Scalar::from_bits(y), z: Scalar::from_bits(z) }
    }

    /// The origin, and the colour black: three positive zeros.
    pub fn zero() -> (r: Vec3)
        ensures
            r.is_black(),
    {
        Vec3 { x: Scalar::zero(), y: Scalar::zero(), z: Scalar::zero() }
    }

    /// The colour white: three ones.
    pub fn white() -> (r: Vec3)
        ensures
            r.is_white(),
    {
        Vec3 { x: Scalar::one(), y: Scalar::one(), z: Scalar::one() }
    }

    /// Pure black: every channel is positive zero.
    pub open spec fn is_black(self) -> bool {
        self.x.bits == 0 && self.y.bits == 0 && self.z.bits == 0
    }

    /// Pure white: every channel is one.
    pub open spec fn is_white(self) -> bool {
        self.x.bits == 0x3f80_0000 && self.y.bits == 0x3f80_0000 && self.z.bits == 0x3f80_0000
    }

    /// First component.
    pub fn x(&self) -> (r: Scalar)
        ensures
            r == self.x,
    {
        self.x
    }

    /// Second component.
    pub fn y(&self) -> (r: Scalar)
        ensures
            r == self.y,
    {
        self.y
    }

    /// Third component.
    pub fn z(&self) -> (r: Scalar)
        ensures
            r == self.z,
    {
        self.z
    }

    /// Whether a point drawn from the cube round the unit sphere can be
    /// scaled onto the sphere: its squared length `lensq` must be above
    /// zero, to be divided by, and at most one. (The bound 1e-160 of the
    /// double-precision sampler is zero in binary32.)
    pub fn unit_sphere_accepts(lensq: Scalar) -> (r: bool)
        ensures
            r == ((Scalar { bits: 0 }).less(lensq) && lensq.at_most(Scalar { bits: 0x3f80_0000 })),
    {
        Scalar::zero().lt(&lensq) && lensq.le(&Scalar::one())
    }

    /// Whether a point drawn from the square round the unit disk lies in
    /// the disk: its squared length `lensq` must be below one.
    pub fn unit_disk_accepts(lensq: Scalar) -> (r: bool)
        ensures
            r == lensq.less(Scalar { bits: 0x3f80_0000 }),
    {
        lensq.lt(&Scalar::one())
    }

    /// The vector itself where it points to the side of a normal, and its
    /// opposite where it does not. `facing` is the dot product of the two.
    pub fn on_hemisphere(self, facing: Scalar) -> (r: Vec3)
        ensures
            r == (if (Scalar { bits: 0 }).less(facing) {
                self
            } else {
                self.opposite()
            }),
    {
        if facing.gt(&Scalar::zero()) {
            self
        } else {
            self.neg()
        }
    }

    /// Whether every component is so close to zero that the triple cannot
    /// serve as a direction.
    pub fn near_zero(&self) -> (r: bool)
        ensures
            r == self.vanishing(),
    {
        let s = Scalar::from_bits(NEAR_ZERO_BITS);
        self.x.abs().lt(&s) && self.y.abs().lt(&s) && self.z.abs().lt(&s)
    }
}

impl core::ops::Neg for Vec3 {
    type Output = Vec3;

    fn neg(self) -> (r: Vec3) {
        Vec3 { x: self.x.negated(), y: self.y.negated(), z: self.z.negated() }
    }
}

impl NegSpecImpl for Vec3 {
    open spec fn obeys_neg_spec() -> bool {
        true
    }

    open spec fn neg_req(self) -> bool {
        true
    }

    open spec fn neg_spec(self) -> Vec3 {
        self.opposite()
    }
}

} // verus!
