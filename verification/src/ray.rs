//! Rays: an origin and a direction.

use vstd::prelude::*;
use crate::vec3::{Point3, Vec3};

verus! {

/// The half line from `origin` along `direction`. The direction need not
/// have length one: distances along the ray are counted in lengths of it.
#[derive(Debug, Clone, Copy)]
pub struct Ray {
    pub origin: Point3,
    pub direction: Vec3,
}

impl Ray {
    /// The ray from `origin` along `direction`.
    pub fn new(origin: Point3, direction: Vec3) -> (r: Ray)
        ensures
            r.origin == origin,
            r.direction == direction,
    {
        Ray { origin, direction }
    }

    /// Where the ray starts.
    pub fn origin(&self) -> (r: Point3)
        ensures
            r == self.origin,
    {
        self.origin
    }

    /// Where the ray points.
    pub fn direction(&self) -> (r: Vec3)
        ensures
            r == self.direction,
    {
        self.direction
    }
}

} // verus!
