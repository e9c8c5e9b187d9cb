//! The sphere, the one shape of a scene.

use vstd::prelude::*;
use crate::hittable::{HitRecord, Roots};
use crate::interval::Interval;
use crate::scalar::Scalar;
use crate::vec3::{Point3, Vec3};

verus! {

/// A sphere and the material of its surface.
pub struct Sphere<M> {
    pub center: Point3,
    pub radius: Scalar,
    pub mat: M,
}

impl<M> Sphere<M> {
    /// The sphere round `center`. A negative radius counts as zero, and so
    /// does one that is not a number.
    pub fn new(center: Point3, radius: Scalar, mat: M) -> (r: Self)
        ensures
            r.center == center,
            r.mat == mat,
            r.radius == (if radius.nan() || radius.less(Scalar { bits: 0 }) {
                Scalar { bits: 0 }
            } else {
                radius
            }),
            !r.radius.nan(),
            r.radius.rank() >= 0,
    {
        Sphere { center, radius: radius.max(&Scalar::zero()), mat }
    }

    /// The record of a hit on this sphere at distance `t` along the ray.
    /// `p` is the point at that distance, `outward_normal` the direction
    /// from the centre to `p`, and `facing` the dot product of the ray's
    /// direction with that normal. The record borrows the sphere's material.
    pub fn record<'a>(
        &'a self,
        t: Scalar,
        p: Point3,
        outward_normal: Vec3,
        facing: Scalar,
    ) -> (rec: HitRecord<'a, M>)
        ensures
            rec.t == t,
            rec.p == p,
            rec.mat == &self.mat,
            rec.front_face == facing.less(Scalar { bits: 0 }),
            rec.normal == (if rec.front_face {
                outward_normal
            } else {
                outward_normal.opposite()
            }),
    {
        HitRecord::new(p, t, facing, &self.mat, outward_normal)
    }

    /// The hit of a ray on this sphere inside the window `ray_t`, once the
    /// quadratic of the two is solved: none where the discriminant is
    /// negative; else at the near crossing if the window encloses it; else
    /// at the far one if the window encloses that. `p`, `outward_normal` and
    /// `facing` belong to the crossing that is chosen, as `record` takes
    /// them, and are read only where there is a hit.
    pub fn hit<'a>(
        &'a self,
        roots: &Roots,
        ray_t: Interval,
        p: Point3,
        outward_normal: Vec3,
        facing: Scalar,
    ) -> (r: Option<HitRecord<'a, M>>)
        ensures
            r.is_some() == roots.first_within(ray_t).is_some(),
            r matches Some(rec) ==> {
                &&& Some(rec.t) == roots.first_within(ray_t)
                &&& rec.p == p
                &&& rec.mat == &self.mat
                &&& rec.front_face == facing.less(Scalar { bits: 0 })
                &&& rec.normal == (if rec.front_face {
                    outward_normal
                } else {
                    outward_normal.opposite()
                })
            },
    {
        match roots.hit_distance(ray_t) {
            Some(t) => Some(self.record(t, p, outward_normal, facing)),
            None => None,
        }
    }
}

} // verus!
