//! What a surface does to a ray that hits it: the three materials and the
//! choices that each makes.
//!
//! A material is handed the directions that it may send the ray in, and
//! the numbers that its choice rests on; it answers with the scattered ray
//! and the colour by which the light along it is weakened, or with nothing
//! where the ray is swallowed.

use vstd::prelude::*;
use crate::hittable::HitRecord;
use crate::ray::Ray;
use crate::scalar::Scalar;
use crate::vec3::{Color, Vec3};

verus! {

/// A matt surface.
#[derive(Debug, Clone, Copy)]
pub struct Lambertian {
    pub albedo: Color,
}

impl Lambertian {
    /// Scatters into `candidate`, the surface normal plus a random unit
    /// vector. Where the two cancel, so that `candidate` is next to zero in
    /// every component, the ray leaves along the normal itself. The ray is
    /// never swallowed, and the light is weakened by the albedo.
    pub fn scatter<M>(&self, rec: &HitRecord<M>, candidate: Vec3) -> (r: Option<(Ray, Color)>)
        ensures
            r == Some(
                (
                    Ray {
                        origin: rec.p,
                        direction: if candidate.vanishing() {
                            rec.normal
                        } else {
                            candidate
                        },
                    },
                    self.albedo,
                ),
            ),
    {
        let direction = if candidate.near_zero() {
            rec.normal
        } else {
            candidate
        };
        Some((Ray::new(rec.p, direction), self.albedo))
    }
}

/// A mirror, blurred by its fuzziness.
#[derive(Debug, Clone, Copy)]
pub struct Metal {
    pub albedo: Color,
    pub fuzziness: Scalar,
}

impl Metal {
    /// Scatters into `reflected`, the mirrored direction of unit length
    /// plus the fuzziness times a random unit vector. `facing` is the dot
    /// product of `reflected` with the surface normal. Where that is zero
    /// or less the ray points into the surface and is swallowed.
    pub fn scatter<M>(&self, rec: &HitRecord<M>, reflected: Vec3, facing: Scalar) -> (r: Option<
        (Ray, Color),
    >)
        ensures
            r == (if facing.at_most(Scalar { bits: 0 }) {
                None
            } else {
                Some((Ray { origin: rec.p, direction: reflected }, self.albedo))
            }),
    {
        if facing.le(&Scalar::zero()) {
            return None;
        }
        Some((Ray::new(rec.p, reflected), self.albedo))
    }
}

/// Glass.
#[derive(Debug, Clone, Copy)]
pub struct Dielectric {
    pub refraction_index: Scalar,
    pub frostedness: Scalar,
}

/// The two ways of a ray at the surface of glass.
#[derive(Debug, Clone, Copy, PartialEq, Eq, Structural)]
pub enum Bend {
    Reflect,
    Refract,
}

impl Dielectric {
    /// The ratio of the refraction indices on the two sides of the surface:
    /// `reciprocal`, which is one over the index, for a ray that enters
    /// from outside, and the index itself for one that leaves.
    pub fn refraction_ratio(&self, front_face: bool, reciprocal: Scalar) -> (r: Scalar)
        ensures
            r == (if front_face {
                reciprocal
            } else {
                self.refraction_index
            }),
    {
        if front_face {
            reciprocal
        } else {
            self.refraction_index
        }
    }

    /// Whether the ray is mirrored or bent. `sine` is the refraction ratio
    /// times the sine of the angle between ray and normal: above one no
    /// bent ray exists, and the ray is mirrored; else it is bent.
    pub fn bend(sine: Scalar) -> (r: Bend)
        ensures
            r == (if (Scalar { bits: 0x3f80_0000 }).less(sine) {
                Bend::Reflect
            } else {
                Bend::Refract
            }),
    {
        if sine.gt(&Scalar::one()) {
            Bend::Reflect
        } else {
            Bend::Refract
        }
    }

    /// Scatters into `reflected` where `bend` says that the ray is
    /// mirrored, and into `refracted` where it says that the ray is bent;
    /// `sine` is what `bend` takes. Glass swallows nothing: the ray always
    /// goes on, and the light along it is not weakened.
    pub fn scatter<M>(
        &self,
        rec: &HitRecord<M>,
        sine: Scalar,
        reflected: Vec3,
        refracted: Vec3,
    ) -> (r: Option<(Ray, Color)>)
        ensures
            r matches Some((ray, attenuation)) && attenuation.is_white() && ray == (Ray {
                origin: rec.p,
                direction: if (Scalar { bits: 0x3f80_0000 }).less(sine) {
                    reflected
                } else {
                    refracted
                },
            }),
    {
        let direction = match Dielectric::bend(sine) {
            Bend::Reflect => reflected,
            Bend::Refract => refracted,
        };
        Some((Ray::new(rec.p, direction), Vec3::white()))
    }
}

} // verus!
