//! The record of a ray/surface intersection.

use crate::fix::Fix;
use crate::point3::Point3;
use crate::ray::{Ray, RayModel};
use crate::vec3::{dot_raw, v3_neg, Dot, Vec3, V3};
use vstd::prelude::*;

verus! {

/// Mathematical model of a hit: point, surface normal (opposing the ray),
/// the material table index, the ray parameter and the side that was hit.
pub struct HitModel {
    pub p: V3,
    pub normal: V3,
    pub material: int,
    pub t: int,
    pub front_face: bool,
}

/// Whether the ray strikes the outside of the surface, and the normal
/// flipped against the ray direction.
pub open spec fn face_normal(r: RayModel, outward: V3) -> (bool, V3) {
    if dot_raw(r.dir, outward) < 0 {
        (true, outward)
    } else {
        (false, v3_neg(outward))
    }
}

/// The hit record built from an outward normal.
pub open spec fn hit_model(p: V3, outward: V3, material: int, t: int, r: RayModel) -> HitModel {
    let (front_face, normal) = face_normal(r, outward);
    HitModel { p, normal, material, t, front_face }
}

/// A ray/surface intersection.  The stored normal always opposes the
/// incoming ray; `front_face` records which side was struck.  The material
/// is an index into the scene's material table.
pub struct HitRecord {
    p: Point3,
    normal: Vec3,
    material: usize,
    t: Fix,
    front_face: bool,
}

impl View for HitRecord {
    type V = HitModel;

    closed spec fn view(&self) -> HitModel {
        HitModel {
            p: self.p@,
            normal: self.normal@,
            material: self.material as int,
            t: self.t@,
            front_face: self.front_face,
        }
    }
}

impl HitRecord {
    /// Record a hit, flipping the outward normal against the ray.
    pub fn new(p: Point3, outward_normal: Vec3, material: usize, t: Fix, r: &Ray) -> (rec: Self)
        ensures
            rec@ == hit_model(p@, outward_normal@, material as int, t@, r@),
            rec@.material == material,
    {
        let (front_face, normal) = Self::set_face_normal(r, outward_normal);
        Self { p, normal, material, t, front_face }
    }

    /// Flip the outward normal against the ray direction.
    fn set_face_normal(r: &Ray, outward_normal: Vec3) -> (res: (bool, Vec3))
        ensures
            (res.0, res.1@) == face_normal(r@, outward_normal@),
    {
        let zero = Fix::zero();
        if r.direction().dot(outward_normal).lt(zero) {
            (true, outward_normal)
        } else {
            (false, outward_normal.neg())
        }
    }

    /// The intersection point.
    pub fn p(&self) -> (r: Point3)
        ensures
            r@ == self@.p,
    {
        self.p
    }

    /// The surface normal, opposing the incoming ray.
    pub fn normal(&self) -> (r: &Vec3)
        ensures
            r@ == self@.normal,
    {
        &self.normal
    }

    /// The material table index of the surface that was hit.
    pub fn material(&self) -> (r: usize)
        ensures
            r == self@.material,
    {
        self.material
    }

    /// The ray parameter of the hit.
    pub fn t(&self) -> (r: Fix)
        ensures
            r@ == self@.t,
    {
        self.t
    }

    /// True when the outside of the surface was struck.
    pub fn front_face(&self) -> (r: bool)
        ensures
            r == self@.front_face,
    {
        self.front_face
    }
}

} // verus!
