//! The glass material.

use crate::color::{white_v3, Color};
use crate::fix::{
    clip, div_raw, lemma_mul_raw_one, lemma_tdiv_mult_exact, lemma_tdiv_scale_exact, mul_raw,
    sqrt_raw, tdiv, Fix, MAX_RAW, SCALE,
};
use crate::hit_record::{HitModel, HitRecord};
use crate::ray::{Ray, RayModel};
use crate::sampler::{s_adv, s_peek, unit_of, Sampler, SamplerModel};
use crate::vec3::{
    dot_raw, lsq_raw, refract, refract_raw, reflect_raw, unit_raw, v3_neg, Dot, LengthSquared,
    Reflect, Unit, V3,
};
use vstd::prelude::*;

verus! {

/// Mathematical model of a dielectric: its index of refraction.
pub struct DielectricModel {
    pub ir: int,
}

/// Schlick's reflectance approximation
/// `r0 + (1 - r0) * (1 - cos)^5` with `r0 = ((1 - n) / (1 + n))^2`,
/// the fifth power taken by squaring twice and multiplying once.
pub open spec fn schlick(cos_theta: int, ref_idx: int) -> int {
    let r0a = div_raw(clip(SCALE - ref_idx), clip(SCALE + ref_idx));
    let r0 = mul_raw(r0a, r0a);
    let p1 = clip(SCALE - cos_theta);
    let p2 = mul_raw(p1, p1);
    let p4 = mul_raw(p2, p2);
    let p5 = mul_raw(p4, p1);
    clip(r0 + mul_raw(clip(SCALE - r0), p5))
}

/// The cosine of the incident angle, capped at one.
pub open spec fn dielectric_cos(unit_dir: V3, normal: V3) -> int {
    let d = dot_raw(v3_neg(unit_dir), normal);
    if d <= SCALE {
        d
    } else {
        SCALE as int
    }
}

/// The refraction ratio: `1 / ir` entering from outside, `ir` from inside.
pub open spec fn dielectric_ratio(ir: int, front_face: bool) -> int {
    if front_face {
        div_raw(SCALE as int, ir)
    } else {
        ir
    }
}

/// A glass scatter: refract by Snell's law unless refraction is impossible
/// (total internal reflection) or Schlick's reflectance beats the drawn
/// coin, in which case reflect.  Glass never absorbs and never tints:
/// the attenuation is white.  One draw is consumed for the coin.
pub open spec fn dielectric_scatter(
    ir: int,
    r: RayModel,
    rec: HitModel,
    m: SamplerModel,
) -> (RayModel, V3) {
    let ratio = dielectric_ratio(ir, rec.front_face);
    let unit_dir = unit_raw(r.dir);
    let cos_theta = dielectric_cos(unit_dir, rec.normal);
    let sin_theta = sqrt_raw(clip(SCALE - mul_raw(cos_theta, cos_theta)));
    let cannot_refract = mul_raw(ratio, sin_theta) > SCALE;
    let must_reflect = schlick(cos_theta, ratio) > unit_of(s_peek(m));
    let dir = if cannot_refract || must_reflect {
        if lsq_raw(unit_dir) > 0 {
            reflect_raw(unit_dir, rec.normal)
        } else {
            unit_dir
        }
    } else {
        refract_raw(unit_dir, rec.normal, ratio)
    };
    (RayModel { orig: rec.p, dir }, white_v3())
}

/// Sampler state after a glass scatter: one coin was drawn.
pub open spec fn dielectric_adv(m: SamplerModel) -> SamplerModel {
    s_adv(m)
}

/// Glass never tints: every dielectric scatter carries the full (white)
/// attenuation, whatever the index, hit or draw.
pub proof fn lemma_dielectric_always_white(ir: int, r: RayModel, rec: HitModel, m: SamplerModel)
    ensures
        dielectric_scatter(ir, r, rec, m).1 == white_v3(),
{
}

/// With an index of refraction of one, and a head-on incidence (the unit
/// incoming direction exactly opposing a unit-length normal), a
/// dielectric never reflects: total internal reflection is impossible,
/// Schlick's reflectance is zero whatever the drawn coin, and the ray
/// passes straight through unchanged.  (At grazing incidence the Schlick
/// coin can still choose reflection.)
pub proof fn lemma_dielectric_unity_passes_through(
    ir: int,
    r: RayModel,
    rec: HitModel,
    m: SamplerModel,
)
    requires
        ir == SCALE,
        lsq_raw(rec.normal) == SCALE,
        unit_raw(r.dir) == v3_neg(rec.normal),
        -MAX_RAW <= rec.normal.x <= MAX_RAW,
        -MAX_RAW <= rec.normal.y <= MAX_RAW,
        -MAX_RAW <= rec.normal.z <= MAX_RAW,
    ensures
        dielectric_scatter(ir, r, rec, m).0.dir == unit_raw(r.dir),
        dielectric_scatter(ir, r, rec, m).1 == white_v3(),
{
    let n = rec.normal;
    let u = unit_raw(r.dir);
    assert(v3_neg(u) == n);

    // The refraction ratio is one on either side of the surface.
    assert(SCALE as int * SCALE == SCALE * (SCALE as int)) by (nonlinear_arith);
    lemma_tdiv_mult_exact(SCALE as int, SCALE as int);
    assert(dielectric_ratio(ir, rec.front_face) == SCALE);

    // Head-on: the capped cosine is exactly one, the sine exactly zero.
    let cos = dielectric_cos(u, n);
    assert(cos == SCALE);
    lemma_mul_raw_one(SCALE as int);
    assert(clip(SCALE - mul_raw(cos, cos)) == 0);
    assert(sqrt_raw(0) == 0);

    // No total internal reflection: `1 * 0` never exceeds one.
    assert(SCALE as int * 0 == 0) by (nonlinear_arith);
    assert(mul_raw(SCALE as int, 0) == clip(tdiv(0, SCALE as int)));
    assert(0 * SCALE == 0) by (nonlinear_arith);
    lemma_tdiv_scale_exact(0);

    // Schlick's reflectance at ratio one is exactly zero.
    assert(schlick(SCALE as int, SCALE as int) == 0) by {
        assert(clip(SCALE - SCALE) == 0);
        assert(div_raw(0, clip(SCALE + SCALE)) == clip(tdiv(0 * SCALE, 2 * SCALE)));
        assert(0 * SCALE == 0 * (2 * SCALE)) by (nonlinear_arith);
        lemma_tdiv_mult_exact(0, 2 * SCALE);
        assert(mul_raw(0, 0) == 0);
        assert(mul_raw(SCALE as int, 0) == 0);
    }

    // The coin is never below zero, so reflection is never chosen.
    assert(unit_of(s_peek(m)) >= 0);

    // Refraction at ratio one hands the direction back unchanged.
    assert(refract_raw(u, n, SCALE as int) == u) by {
        lemma_refract_unity(u, n);
    }
}

/// Refraction with ratio one of a direction exactly opposing a
/// unit-length normal returns the direction unchanged.
proof fn lemma_refract_unity(u: V3, n: V3)
    requires
        v3_neg(u) == n,
        lsq_raw(n) == SCALE,
        -MAX_RAW <= n.x <= MAX_RAW,
        -MAX_RAW <= n.y <= MAX_RAW,
        -MAX_RAW <= n.z <= MAX_RAW,
    ensures
        refract_raw(u, n, SCALE as int) == u,
{
    // cos = min(-u·n, 1) = min(n·n, 1) = 1.
    assert(dot_raw(v3_neg(u), n) == SCALE);

    // perp = ratio * (n * cos + u) = n + u = 0.
    assert(n.x * SCALE + u.x * SCALE == (n.x + u.x) * SCALE) by (nonlinear_arith);
    assert(n.y * SCALE + u.y * SCALE == (n.y + u.y) * SCALE) by (nonlinear_arith);
    assert(n.z * SCALE + u.z * SCALE == (n.z + u.z) * SCALE) by (nonlinear_arith);
    lemma_tdiv_scale_exact(n.x + u.x);
    lemma_tdiv_scale_exact(n.y + u.y);
    lemma_tdiv_scale_exact(n.z + u.z);
    let f = crate::vec3::v3_fma_s(n, SCALE as int, u);
    assert(f == (V3 { x: 0, y: 0, z: 0 }));
    assert(0 * SCALE == 0) by (nonlinear_arith);
    lemma_tdiv_scale_exact(0);
    let perp = crate::vec3::v3_scale(f, SCALE as int);
    assert(perp == (V3 { x: 0, y: 0, z: 0 }));
    assert(mul_raw(0, 0) == 0);
    assert(lsq_raw(perp) == 0);

    // par = -sqrt(|1 - 0|) * n = -n = u.
    crate::fix::lemma_sqrt_raw_square(1);
    assert((1 * 1) * SCALE == SCALE as int) by (nonlinear_arith);
    assert(sqrt_raw(SCALE as int) == 1 * SCALE);
    assert(1 * SCALE == SCALE as int) by (nonlinear_arith);
    lemma_mul_raw_neg_scale(n.x);
    lemma_mul_raw_neg_scale(n.y);
    lemma_mul_raw_neg_scale(n.z);
    let par = crate::vec3::v3_scale(n, -(SCALE as int));
    assert(par == v3_neg(n));
    assert(crate::vec3::v3_add(perp, par) == u);
}

/// Multiplying by minus one negates a representable value.
proof fn lemma_mul_raw_neg_scale(x: int)
    requires
        -MAX_RAW <= x <= MAX_RAW,
    ensures
        mul_raw(x, -(SCALE as int)) == -x,
{
    crate::fix::lemma_mul_raw_neg(x, SCALE as int);
    lemma_mul_raw_one(x);
}

/// A clear surface that refracts or reflects, and never absorbs.
#[derive(Clone, Copy, Debug)]
pub struct Dielectric {
    ir: Fix,
}

impl View for Dielectric {
    type V = DielectricModel;

    closed spec fn view(&self) -> DielectricModel {
        DielectricModel { ir: self.ir@ }
    }
}

impl Dielectric {
    /// A dielectric with the given index of refraction.
    pub fn new(ir: Fix) -> (r: Self)
        ensures
            r@.ir == ir@,
    {
        Self { ir }
    }

    /// Schlick's approximation for the reflectance.
    fn reflectance(cos_theta: Fix, ref_idx: Fix) -> (r: Fix)
        ensures
            r@ == schlick(cos_theta@, ref_idx@),
    {
        let one = Fix::one();
        let denom = one.add(ref_idx);
        let r0a = if denom.is_zero() {
            Fix::zero()
        } else {
            one.sub(ref_idx).div(denom)
        };
        let r0 = r0a.mul(r0a);
        let p1 = one.sub(cos_theta);
        let p2 = p1.mul(p1);
        let p4 = p2.mul(p2);
        let p5 = p4.mul(p1);
        r0.add(one.sub(r0).mul(p5))
    }

    /// Refract or reflect; the attenuation is always white.  The incoming
    /// ray must have a direction long enough to normalize.
    pub fn scatter(&self, r_in: &Ray, rec: &HitRecord, s: &mut Sampler) -> (res: Option<
        (Ray, Color),
    >)
        requires
            crate::vec3::has_unit(r_in@.dir),
        ensures
            final(s)@ == dielectric_adv(old(s)@),
            res is Some,
            res is Some ==> ((res->Some_0).0@, (res->Some_0).1@) == dielectric_scatter(
                self@.ir,
                r_in@,
                rec@,
                old(s)@,
            ),
    {
        let one = Fix::one();
        let refraction_ratio = if rec.front_face() {
            if self.ir.is_zero() {
                Fix::zero()
            } else {
                one.div(self.ir)
            }
        } else {
            self.ir
        };

        let unit_direction = r_in.direction().unit();
        let cos_theta = unit_direction.neg().dot(*rec.normal()).min_with(one);
        let sin_theta = one.sub(cos_theta.mul(cos_theta)).sqrt();
        let cannot_refract = one.lt(refraction_ratio.mul(sin_theta));
        let coin = s.next_unit();
        let must_reflect = coin.lt(Self::reflectance(cos_theta, refraction_ratio));
        let zero = Fix::zero();
        let direction = if cannot_refract || must_reflect {
            if zero.lt(unit_direction.length_squared()) {
                unit_direction.reflect(*rec.normal())
            } else {
                unit_direction
            }
        } else {
            refract(unit_direction, rec.normal(), refraction_ratio)
        };

        let scattered = Ray::new(rec.p(), direction);
        Some((scattered, crate::color::white()))
    }
}

} // verus!
