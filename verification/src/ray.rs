//! Rays: an origin and a direction.

use crate::fix::Fix;
use crate::point3::Point3;
use crate::vec3::{v3_fma_s, MulAdd, Vec3, V3};
use vstd::prelude::*;

verus! {

/// Mathematical model of a ray.
pub struct RayModel {
    pub orig: V3,
    pub dir: V3,
}

/// Position along a ray: `origin + direction * t`, fused per component.
pub open spec fn ray_at(r: RayModel, t: int) -> V3 {
    v3_fma_s(r.dir, t, r.orig)
}

/// A ray of light, cast from `origin` along `direction`.
pub struct Ray {
    origin: Point3,
    direction: Vec3,
}

impl View for Ray {
    type V = RayModel;

    closed spec fn view(&self) -> RayModel {
        RayModel { orig: self.origin@, dir: self.direction@ }
    }
}

impl Ray {
    /// Cast a ray from `origin` along `direction`.
    pub fn new(origin: Point3, direction: Vec3) -> (r: Self)
        ensures
            r@.orig == origin@,
            r@.dir == direction@,
    {
        Self { origin, direction }
    }

    /// Where the ray starts.
    pub fn origin(&self) -> (r: &Point3)
        ensures
            r@ == self@.orig,
    {
        &self.origin
    }

    /// Where the ray points.
    pub fn direction(&self) -> (r: &Vec3)
        ensures
            r@ == self@.dir,
    {
        &self.direction
    }

    /// The point at parameter `t`: `origin + direction * t`.
    pub fn at(&self, t: Fix) -> (r: Point3)
        ensures
            r@ == ray_at(self@, t@),
    {
        self.direction.mul_add(t, self.origin)
    }
}

} // verus!
