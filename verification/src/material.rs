//! The closed set of materials and their common scattering contract.
//!
//! Given an incoming ray and a hit, `scatter` produces an outgoing ray
//! and an attenuation color, or nothing when the surface absorbs the ray.

use crate::color::Color;
use crate::dielectric::{dielectric_adv, dielectric_scatter, Dielectric, DielectricModel};
use crate::hit_record::{HitModel, HitRecord};
use crate::lambertian::{lambertian_adv, lambertian_scatter, Lambertian, LambertianModel};
use crate::metal::{metal_adv, metal_scatter, Metal, MetalModel};
use crate::ray::{Ray, RayModel};
use crate::sampler::{Sampler, SamplerModel};
use crate::vec3::{has_unit, V3};
use vstd::prelude::*;

verus! {

/// Mathematical model of a material.
pub enum MaterialModel {
    Lambertian(LambertianModel),
    Metal(MetalModel),
    Dielectric(DielectricModel),
}

/// The scattered ray and attenuation a material produces, if any.
pub open spec fn scatter_result(
    mv: MaterialModel,
    r: RayModel,
    rec: HitModel,
    m: SamplerModel,
) -> Option<(RayModel, V3)> {
    match mv {
        MaterialModel::Lambertian(l) => Option::Some(lambertian_scatter(l.albedo, rec, m)),
        MaterialModel::Metal(mm) => metal_scatter(mm, r, rec, m),
        MaterialModel::Dielectric(d) => Option::Some(dielectric_scatter(d.ir, r, rec, m)),
    }
}

/// Sampler state after a scatter.
pub open spec fn scatter_adv(mv: MaterialModel, rec: HitModel, m: SamplerModel) -> SamplerModel {
    match mv {
        MaterialModel::Lambertian(_) => lambertian_adv(rec, m),
        MaterialModel::Metal(_) => metal_adv(m),
        MaterialModel::Dielectric(_) => dielectric_adv(m),
    }
}

/// One of the fixed material kinds.
#[derive(Clone, Copy, Debug)]
pub enum Material {
    Lambertian(Lambertian),
    Metal(Metal),
    Dielectric(Dielectric),
}

impl View for Material {
    type V = MaterialModel;

    open spec fn view(&self) -> MaterialModel {
        match self {
            Material::Lambertian(l) => MaterialModel::Lambertian(l@),
            Material::Metal(m) => MaterialModel::Metal(m@),
            Material::Dielectric(d) => MaterialModel::Dielectric(d@),
        }
    }
}

impl Material {
    /// Scatter the incoming ray at the hit, or absorb it (`None`).
    /// Diffuse and glass surfaces always scatter; metal absorbs exactly
    /// when the perturbed reflection points into the surface.
    pub fn scatter(&self, r_in: &Ray, rec: &HitRecord, s: &mut Sampler) -> (res: Option<
        (Ray, Color),
    >)
        requires
            has_unit(r_in@.dir),
        ensures
            final(s)@ == scatter_adv(self@, rec@, old(s)@),
            (res is Some) == (scatter_result(self@, r_in@, rec@, old(s)@) is Some),
            res is Some ==> ((res->Some_0).0@, (res->Some_0).1@) == scatter_result(
                self@,
                r_in@,
                rec@,
                old(s)@,
            )->Some_0,
    {
        match self {
            Material::Lambertian(l) => l.scatter(r_in, rec, s),
            Material::Metal(m) => m.scatter(r_in, rec, s),
            Material::Dielectric(d) => d.scatter(r_in, rec, s),
        }
    }
}

} // verus!
