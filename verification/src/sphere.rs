//! Ray/sphere intersection.
//!
//! The intersection solves the quadratic `a*t^2 + 2*half_b*t + c = 0`
//! obtained by substituting the ray equation into the sphere equation,
//! with every floating step replaced by the crate's exact fixed-point
//! operation.  A negative radius flips the outward normal and so models a
//! hollow shell; a zero radius or a degenerate ray direction reports no
//! hit rather than dividing by zero.

use crate::fix::{
    clip, div_raw, fma_raw, lemma_clip_neg, lemma_fma_raw_ints, lemma_mul_raw_ints,
    lemma_sqrt_raw_square, lemma_tdiv_mult_exact, lemma_tdiv_neg_right, lemma_tdiv_scale_exact,
    mul_raw, sqrt_raw, tdiv, Fix, MAX_RAW, SCALE,
};
use crate::hit_record::{hit_model, HitModel, HitRecord};
use crate::hittable::Hittable;
use crate::point3::Point3;
use crate::ray::{ray_at, Ray, RayModel};
use crate::vec3::{dot_raw, lsq_raw, v3_div, v3_neg, v3_sub, Dot, LengthSquared, V3};
use vstd::prelude::*;

verus! {

/// Mathematical model of a sphere: center, (signed) radius, material index.
pub struct SphereModel {
    pub center: V3,
    pub radius: int,
    pub material: int,
}

/// The hit record for a root `t` accepted on this sphere.
pub open spec fn sphere_hit_at(s: SphereModel, r: RayModel, t: int) -> HitModel {
    let p = ray_at(r, t);
    let outward = v3_div(v3_sub(p, s.center), s.radius);
    hit_model(p, outward, s.material, t, r)
}

/// The nearest intersection of the ray with the sphere whose parameter
/// lies in `[t_min, t_max)`: the smaller quadratic root when it is in
/// range, else the larger, else no hit.  Degenerate inputs (zero radius,
/// zero-length direction, negative discriminant) give no hit.
pub open spec fn sphere_hit(s: SphereModel, r: RayModel, t_min: int, t_max: int) -> Option<
    HitModel,
> {
    let oc = v3_sub(r.orig, s.center);
    let a = lsq_raw(r.dir);
    let half_b = dot_raw(oc, r.dir);
    let c = fma_raw(s.radius, -s.radius, lsq_raw(oc));
    let disc = fma_raw(half_b, half_b, -mul_raw(a, c));
    if s.radius == 0 || a == 0 || disc < 0 {
        None
    } else {
        let sq = sqrt_raw(disc);
        let root1 = div_raw(clip(-half_b - sq), a);
        if t_min <= root1 && root1 < t_max {
            Some(sphere_hit_at(s, r, root1))
        } else {
            let root2 = div_raw(clip(-half_b + sq), a);
            if t_min <= root2 && root2 < t_max {
                Some(sphere_hit_at(s, r, root2))
            } else {
                None
            }
        }
    }
}

/// The same sphere with its radius negated: the hollow shell.
pub open spec fn hollow(s: SphereModel) -> SphereModel {
    SphereModel { center: s.center, radius: -s.radius, material: s.material }
}

/// The outward normal of a sphere at the hit parameter `t`.
pub open spec fn outward_at(s: SphereModel, r: RayModel, t: int) -> V3 {
    v3_div(v3_sub(ray_at(r, t), s.center), s.radius)
}

/// Negating the radius changes no hit parameter: the hollow shell is hit
/// at the same `t` and the same point as the solid sphere, with the
/// outward normal inverted.  The stored (ray-opposing) normal is the
/// same and only the struck side flips, except when the ray grazes the
/// surface (a zero dot product).
pub proof fn lemma_hollow_sphere_same_hits(s: SphereModel, r: RayModel, t_min: int, t_max: int)
    ensures
        (sphere_hit(hollow(s), r, t_min, t_max) is Some) == (sphere_hit(s, r, t_min, t_max)
            is Some),
        sphere_hit(s, r, t_min, t_max) is Some ==> {
            let h1 = sphere_hit(s, r, t_min, t_max)->Some_0;
            let h2 = sphere_hit(hollow(s), r, t_min, t_max)->Some_0;
            &&& h2.t == h1.t
            &&& h2.p == h1.p
            &&& h2.material == h1.material
            &&& outward_at(hollow(s), r, h1.t) == v3_neg(outward_at(s, r, h1.t))
            &&& (dot_raw(r.dir, outward_at(s, r, h1.t)) != 0 ==> h2.front_face
                == !h1.front_face && h2.normal == h1.normal)
        },
{
    let s2 = hollow(s);
    assert(s.radius * -s.radius == s2.radius * -s2.radius) by (nonlinear_arith)
        requires s2.radius == -s.radius;
    if s.radius != 0 {
        let oc = v3_sub(r.orig, s.center);
        let a = lsq_raw(r.dir);
        if a != 0 {
            let half_b = dot_raw(oc, r.dir);
            let c = fma_raw(s.radius, -s.radius, lsq_raw(oc));
            let disc = fma_raw(half_b, half_b, -mul_raw(a, c));
            if disc >= 0 {
                let sq = sqrt_raw(disc);
                let root1 = div_raw(clip(-half_b - sq), a);
                let root2 = div_raw(clip(-half_b + sq), a);
                let t = if t_min <= root1 && root1 < t_max {
                    root1
                } else {
                    root2
                };
                if (t_min <= root1 && root1 < t_max) || (t_min <= root2 && root2 < t_max) {
                    lemma_outward_flips(s, r, t);
                    let o1 = outward_at(s, r, t);
                    crate::vec3::lemma_dot_neg_right(r.dir, o1);
                }
            }
        }
    }
}

/// Dividing the same offset by the negated radius negates every
/// component of the outward normal.
proof fn lemma_outward_flips(s: SphereModel, r: RayModel, t: int)
    requires
        s.radius != 0,
    ensures
        outward_at(hollow(s), r, t) == v3_neg(outward_at(s, r, t)),
{
    let q = v3_sub(ray_at(r, t), s.center);
    lemma_div_raw_neg_divisor(q.x, s.radius);
    lemma_div_raw_neg_divisor(q.y, s.radius);
    lemma_div_raw_neg_divisor(q.z, s.radius);
}

/// Division truncates symmetrically: negating the divisor negates the
/// quotient.
proof fn lemma_div_raw_neg_divisor(x: int, b: int)
    requires
        b != 0,
    ensures
        div_raw(x, -b) == -div_raw(x, b),
{
    lemma_tdiv_neg_right(x * SCALE, b);
    lemma_clip_neg(tdiv(x * SCALE, b));
}

/// A ray from outside a sphere, aimed straight through its center, hits
/// the near surface at `t = distance - radius`, and the stored normal
/// points back along the ray.  Stated here for whole-number geometry on
/// the first axis, where the fixed-point arithmetic is exact; on
/// fractional inputs `t` is the same up to rounding.
pub proof fn lemma_axial_hit_through_center(
    ox: int,
    oy: int,
    oz: int,
    d: int,
    rad: int,
    mat: int,
)
    requires
        -1000 <= ox <= 1000,
        -1000 <= oy <= 1000,
        -1000 <= oz <= 1000,
        1 <= rad < d <= 1000,
    ensures
        ({
            let r = RayModel {
                orig: V3 { x: ox * SCALE, y: oy * SCALE, z: oz * SCALE },
                dir: V3 { x: SCALE as int, y: 0, z: 0 },
            };
            let s = SphereModel {
                center: V3 { x: (ox + d) * SCALE, y: oy * SCALE, z: oz * SCALE },
                radius: rad * SCALE,
                material: mat,
            };
            let hit = sphere_hit(s, r, 1000, MAX_RAW as int);
            &&& hit is Some
            &&& hit->Some_0.t == (d - rad) * SCALE
            &&& hit->Some_0.front_face
            &&& hit->Some_0.normal == (V3 { x: -SCALE as int, y: 0, z: 0 })
        }),
{
    let r = RayModel {
        orig: V3 { x: ox * SCALE, y: oy * SCALE, z: oz * SCALE },
        dir: V3 { x: SCALE as int, y: 0, z: 0 },
    };
    let s = SphereModel {
        center: V3 { x: (ox + d) * SCALE, y: oy * SCALE, z: oz * SCALE },
        radius: rad * SCALE,
        material: mat,
    };
    assert(mul_raw(0, 0) == 0);
    assert(fma_raw(0, 0, 0) == 0);
    assert(SCALE as int == 1 * SCALE) by (nonlinear_arith);
    assert(0 == 0 * SCALE) by (nonlinear_arith);

    // The offset from the center back to the origin.
    let oc = v3_sub(r.orig, s.center);
    assert(ox * SCALE - (ox + d) * SCALE == (-d) * SCALE) by (nonlinear_arith);
    assert(oc == V3 { x: (-d) * SCALE, y: 0 * SCALE, z: 0 * SCALE });

    // The quadratic's coefficients, exactly.
    lemma_fma_raw_ints(1, 1, 0);
    let a = lsq_raw(r.dir);
    assert(a == 1 * SCALE);
    assert(-1_000_000_000_000 <= -d * 1 + 0 <= 1_000_000_000_000) by (nonlinear_arith)
        requires 1 <= d <= 1000;
    lemma_fma_raw_ints(-d, 1, 0);
    let half_b = dot_raw(oc, r.dir);
    assert(half_b == (-d * 1 + 0) * SCALE);
    assert(-d * 1 + 0 == -d) by (nonlinear_arith);
    assert(-1_000_000_000_000 <= -d * -d + 0 <= 1_000_000_000_000) by (nonlinear_arith)
        requires 1 <= d <= 1000;
    lemma_fma_raw_ints(-d, -d, 0);
    assert(lsq_raw(oc) == (-d * -d + 0) * SCALE);
    assert(-d * -d + 0 == d * d) by (nonlinear_arith);
    assert(-(rad * SCALE) == (-rad) * SCALE) by (nonlinear_arith);
    assert(-1_000_000_000_000 <= rad * -rad + d * d <= 1_000_000_000_000) by (nonlinear_arith)
        requires 1 <= rad <= 1000, 1 <= d <= 1000;
    lemma_fma_raw_ints(rad, -rad, d * d);
    let c = fma_raw(s.radius, -s.radius, lsq_raw(oc));
    assert(c == (rad * -rad + d * d) * SCALE);
    let cc = rad * -rad + d * d;
    assert(-1_000_000_000_000 <= 1 * cc <= 1_000_000_000_000) by (nonlinear_arith)
        requires 1 <= rad <= 1000, 1 <= d <= 1000, cc == rad * -rad + d * d;
    lemma_mul_raw_ints(1, cc);
    assert(mul_raw(a, c) == (1 * cc) * SCALE);
    assert(-((1 * cc) * SCALE) == (-(1 * cc)) * SCALE) by (nonlinear_arith);
    assert(-1_000_000_000_000 <= -d * -d + -(1 * cc) <= 1_000_000_000_000) by (nonlinear_arith)
        requires 1 <= rad <= 1000, 1 <= d <= 1000, cc == rad * -rad + d * d;
    lemma_fma_raw_ints(-d, -d, -(1 * cc));
    let disc = fma_raw(half_b, half_b, -mul_raw(a, c));
    assert(disc == (-d * -d + -(1 * cc)) * SCALE);
    assert(-d * -d + -(1 * cc) == rad * rad) by (nonlinear_arith)
        requires cc == rad * -rad + d * d;

    // The near root, exactly the distance to the near surface.
    lemma_sqrt_raw_square(rad);
    let sq = sqrt_raw(disc);
    assert(sq == rad * SCALE);
    assert(-((-d) * SCALE) - rad * SCALE == (d - rad) * SCALE) by (nonlinear_arith);
    assert(-1_000_000_000_000_000_000 <= (d - rad) * SCALE <= 1_000_000_000_000_000_000)
        by (nonlinear_arith)
        requires 1 <= rad < d <= 1000;
    lemma_tdiv_scale_exact((d - rad) * SCALE);
    let root1 = div_raw(clip(-half_b - sq), a);
    assert(root1 == (d - rad) * SCALE);
    assert(1000 <= (d - rad) * SCALE < MAX_RAW) by (nonlinear_arith)
        requires 1 <= rad < d <= 1000, SCALE == 1_000_000int, MAX_RAW == 1_000_000_000_000_000_000int;

    // The hit point and its outward normal.
    let t = root1;
    assert(-1_000_000_000_000 <= 1 * (d - rad) + ox <= 1_000_000_000_000) by (nonlinear_arith)
        requires 1 <= rad < d <= 1000, -1000 <= ox <= 1000;
    lemma_fma_raw_ints(1, d - rad, ox);
    assert((d - rad) * SCALE == (d - rad) * SCALE && 1 * SCALE == SCALE as int);
    let p = ray_at(r, t);
    assert(p.x == (1 * (d - rad) + ox) * SCALE);
    assert(fma_raw(0, t, oy * SCALE) == clip(tdiv(0 * t + (oy * SCALE) * SCALE, SCALE as int)));
    assert(0 * t == 0) by (nonlinear_arith);
    lemma_tdiv_scale_exact(oy * SCALE);
    lemma_tdiv_scale_exact(oz * SCALE);
    assert(p.y == oy * SCALE);
    assert(p.z == oz * SCALE);
    assert(1 * (d - rad) + ox == ox + d - rad) by (nonlinear_arith);
    assert((ox + d - rad) * SCALE - (ox + d) * SCALE == (-rad) * SCALE) by (nonlinear_arith);
    let q = v3_sub(p, s.center);
    assert(q == V3 { x: (-rad) * SCALE, y: 0, z: 0 });
    assert((-rad) * SCALE * SCALE == (-SCALE as int) * (rad * SCALE)) by (nonlinear_arith);
    assert(rad * SCALE > 0) by (nonlinear_arith)
        requires 1 <= rad, SCALE > 0;
    lemma_tdiv_mult_exact(-SCALE as int, rad * SCALE);
    assert(0 * (rad * SCALE) == 0) by (nonlinear_arith);
    lemma_tdiv_mult_exact(0, rad * SCALE);
    let outward = v3_div(q, s.radius);
    assert(outward == V3 { x: -SCALE as int, y: 0, z: 0 });

    // The stored normal opposes the ray: the struck side is the front.
    assert(SCALE as int * (-SCALE as int) == (-SCALE as int) * SCALE) by (nonlinear_arith);
    lemma_tdiv_scale_exact(-SCALE as int);
    assert(dot_raw(r.dir, outward) == clip(-SCALE as int));
}

/// A sphere with a (possibly negative, hollow) radius.
pub struct Sphere {
    center: Point3,
    radius: Fix,
    material: usize,
}

impl View for Sphere {
    type V = SphereModel;

    closed spec fn view(&self) -> SphereModel {
        SphereModel { center: self.center@, radius: self.radius@, material: self.material as int }
    }
}

impl Sphere {
    /// A sphere around `center`; a negative radius models a hollow shell
    /// whose normals point inward.  The material is an index into the
    /// scene's material table.
    pub fn new(center: Point3, radius: Fix, material: usize) -> (r: Self)
        ensures
            r@.center == center@,
            r@.radius == radius@,
            r@.material == material,
    {
        Self { center, radius, material }
    }
}

impl Hittable for Sphere {
    open spec fn hit_spec(&self, r: RayModel, t_min: int, t_max: int) -> Option<HitModel> {
        sphere_hit(self@, r, t_min, t_max)
    }

    fn hit(&self, r: &Ray, t_min: Fix, t_max: Fix) -> (h: Option<HitRecord>)
        ensures
            (h is Some) == (self.hit_spec(r@, t_min@, t_max@) is Some),
            h is Some ==> (h->Some_0)@ == self.hit_spec(r@, t_min@, t_max@)->Some_0,
    {
        let zero = Fix::zero();
        let dir = *r.direction();
        let oc = r.origin().sub(self.center);
        let a = dir.length_squared();
        let half_b = oc.dot(dir);
        let c = self.radius.mul_add(self.radius.neg(), oc.length_squared());
        let disc = half_b.mul_add(half_b, a.mul(c).neg());
        if self.radius.is_zero() || a.is_zero() || disc.lt(zero) {
            return None;
        }
        let sqrtd = disc.sqrt();
        let mut root = half_b.neg().sub(sqrtd).div(a);
        if !(t_min.le(root) && root.lt(t_max)) {
            root = half_b.neg().add(sqrtd).div(a);
            if !(t_min.le(root) && root.lt(t_max)) {
                return None;
            }
        }
        let t = root;
        let p = r.at(t);
        let outward_normal = p.sub(self.center).div(self.radius);
        let hit_record = HitRecord::new(p, outward_normal, self.material, t, r);
        Some(hit_record)
    }
}

} // verus!
