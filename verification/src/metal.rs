//! The specular material.

use crate::color::Color;
use crate::fix::Fix;
use crate::hit_record::{HitModel, HitRecord};
use crate::ray::{Ray, RayModel};
use crate::sampler::{Sampler, SamplerModel};
use crate::vec3::{
    dot_raw, has_unit, reflect_raw, unit_sphere_of, v3_add, v3_scale, Dot, RandomUnitSphere,
    Reflect, Vec3, V3,
};
use vstd::prelude::*;

verus! {

/// Mathematical model of a metal: albedo and roughness in `[0, 1]`.
pub struct MetalModel {
    pub albedo: V3,
    pub fuzz: int,
}

/// A specular scatter: the incoming direction mirrored about the normal,
/// perturbed by `fuzz` times a unit-ball sample; absorbed when the result
/// points into the surface.
pub open spec fn metal_scatter(
    mv: MetalModel,
    r: RayModel,
    rec: HitModel,
    m: SamplerModel,
) -> Option<(RayModel, V3)> {
    let reflected = reflect_raw(r.dir, rec.normal);
    let (ball, _) = unit_sphere_of(m);
    let dir = v3_add(reflected, v3_scale(ball, mv.fuzz));
    if dot_raw(dir, rec.normal) > 0 {
        Option::Some((RayModel { orig: rec.p, dir }, mv.albedo))
    } else {
        Option::None
    }
}

/// Sampler state after a specular scatter.
pub open spec fn metal_adv(m: SamplerModel) -> SamplerModel {
    unit_sphere_of(m).1
}

/// A mirror with a roughness knob.
#[derive(Clone, Copy, Debug)]
pub struct Metal {
    albedo: Color,
    fuzz: Fix,
}

impl View for Metal {
    type V = MetalModel;

    closed spec fn view(&self) -> MetalModel {
        MetalModel { albedo: self.albedo@, fuzz: self.fuzz@ }
    }
}

impl Metal {
    /// A metal with the given albedo; the fuzz is forced into `[0, 1]`.
    pub fn new(albedo: Color, fuzz: Fix) -> (r: Self)
        ensures
            r@.albedo == albedo@,
            r@.fuzz == if fuzz@ < 0 {
                0int
            } else if fuzz@ > crate::fix::SCALE {
                crate::fix::SCALE as int
            } else {
                fuzz@
            },
    {
        let zero = Fix::zero();
        let one = Fix::one();
        let fuzz = fuzz.clamp(zero, one);
        Self { albedo, fuzz }
    }

    /// Reflect about the normal, perturbed by the fuzz; absorbs scatters
    /// that point into the surface.  The incoming ray must have a
    /// direction long enough to normalize.
    pub fn scatter(&self, r_in: &Ray, rec: &HitRecord, s: &mut Sampler) -> (res: Option<
        (Ray, Color),
    >)
        requires
            has_unit(r_in@.dir),
        ensures
            final(s)@ == metal_adv(old(s)@),
            (res is Some) == (metal_scatter(self@, r_in@, rec@, old(s)@) is Some),
            res is Some ==> ((res->Some_0).0@, (res->Some_0).1@) == metal_scatter(
                self@,
                r_in@,
                rec@,
                old(s)@,
            )->Some_0,
    {
        let reflected = r_in.direction().reflect(*rec.normal());
        let fuzziness = Vec3::random_unit_sphere(s).scale(self.fuzz);
        let direction = reflected.add(fuzziness);
        let scattered = Ray::new(rec.p(), direction);
        let attenuation = self.albedo;
        let zero = Fix::zero();
        if zero.lt(direction.dot(*rec.normal())) {
            return Some((scattered, attenuation));
        }
        None
    }
}

} // verus!
