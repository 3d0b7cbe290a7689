//! The diffuse material.

use crate::color::Color;
use crate::hit_record::{HitModel, HitRecord};
use crate::ray::{Ray, RayModel};
use crate::sampler::{Sampler, SamplerModel};
use crate::vec3::{hemisphere_of, v3_is_zero, RandomInHemisphere, Vec3, Zero, V3};
use vstd::prelude::*;

verus! {

/// Mathematical model of a diffuse material.
pub struct LambertianModel {
    pub albedo: V3,
}

/// A diffuse scatter: a hemisphere sample around the normal (the normal
/// itself when the sample degenerates to zero), attenuated by the albedo.
/// Diffuse surfaces always scatter.
pub open spec fn lambertian_scatter(albedo: V3, rec: HitModel, m: SamplerModel) -> (
    RayModel,
    V3,
) {
    let (d, _) = hemisphere_of(rec.normal, m);
    let dir = if v3_is_zero(d) {
        rec.normal
    } else {
        d
    };
    (RayModel { orig: rec.p, dir }, albedo)
}

/// Sampler state after a diffuse scatter.
pub open spec fn lambertian_adv(rec: HitModel, m: SamplerModel) -> SamplerModel {
    hemisphere_of(rec.normal, m).1
}

/// A matte surface that scatters into the hemisphere of its normal.
#[derive(Clone, Copy, Debug)]
pub struct Lambertian {
    albedo: Color,
}

impl View for Lambertian {
    type V = LambertianModel;

    closed spec fn view(&self) -> LambertianModel {
        LambertianModel { albedo: self.albedo@ }
    }
}

impl Lambertian {
    /// A diffuse material with the given albedo.
    pub fn new(albedo: Color) -> (r: Self)
        ensures
            r@.albedo == albedo@,
    {
        Self { albedo }
    }

    /// Scatter into the hemisphere of the surface normal; never absorbs.
    pub fn scatter(&self, _r_in: &Ray, rec: &HitRecord, s: &mut Sampler) -> (res: Option<
        (Ray, Color),
    >)
        ensures
            final(s)@ == lambertian_adv(rec@, old(s)@),
            res is Some,
            res is Some ==> ((res->Some_0).0@, (res->Some_0).1@) == lambertian_scatter(
                self@.albedo,
                rec@,
                old(s)@,
            ),
    {
        let mut scatter_direction = Vec3::random_in_hemisphere(rec.normal(), s);
        if scatter_direction.is_zero() {
            scatter_direction = *rec.normal();
        }
        let scattered = Ray::new(rec.p(), scatter_direction);
        let attenuation = self.albedo;
        Some((scattered, attenuation))
    }
}

} // verus!
