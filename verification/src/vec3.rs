//! Vector algebra over fixed-point scalars.
//!
//! `Vec3` is a `ScalarVec3<Fix>`.  Each capability is a trait whose
//! executable method is pinned, by its `ensures`, to a spec function over
//! the mathematical model `V3` (a triple of raw integer counts).  The spec
//! functions spell out the exact rounding of every operation.

use crate::fix::{abs_int, clip, div_raw, fma_raw, mul_raw, sqrt_raw, tdiv, Fix, SCALE};
use crate::fix::{lemma_sqrt_floor, sqrt_floor};
use crate::sampler::{ranged_of, s_adv, s_adv_n, s_peek, unit_of, Sampler, SamplerModel};
use crate::scalar_vec3::ScalarVec3;
use vstd::prelude::*;

verus! {

/// The vector type every geometric computation works on.
pub type Vec3 = ScalarVec3<Fix>;

/// Mathematical model of a `Vec3`: the three raw component counts.
pub struct V3 {
    pub x: int,
    pub y: int,
    pub z: int,
}

impl View for ScalarVec3<Fix> {
    type V = V3;

    open spec fn view(&self) -> V3 {
        V3 { x: self.spec_x()@, y: self.spec_y()@, z: self.spec_z()@ }
    }
}

/// Component-wise sum (each component saturates independently).
pub open spec fn v3_add(u: V3, v: V3) -> V3 {
    V3 { x: clip(u.x + v.x), y: clip(u.y + v.y), z: clip(u.z + v.z) }
}

/// Component-wise difference.
pub open spec fn v3_sub(u: V3, v: V3) -> V3 {
    V3 { x: clip(u.x - v.x), y: clip(u.y - v.y), z: clip(u.z - v.z) }
}

/// Component-wise negation (exact).
pub open spec fn v3_neg(u: V3) -> V3 {
    V3 { x: -u.x, y: -u.y, z: -u.z }
}

/// Component-wise product.
pub open spec fn v3_mul(u: V3, v: V3) -> V3 {
    V3 { x: mul_raw(u.x, v.x), y: mul_raw(u.y, v.y), z: mul_raw(u.z, v.z) }
}

/// Scalar product.
pub open spec fn v3_scale(u: V3, s: int) -> V3 {
    V3 { x: mul_raw(u.x, s), y: mul_raw(u.y, s), z: mul_raw(u.z, s) }
}

/// Scalar division.
pub open spec fn v3_div(u: V3, s: int) -> V3 {
    V3 { x: div_raw(u.x, s), y: div_raw(u.y, s), z: div_raw(u.z, s) }
}

/// Component-wise fused multiply-add `u * v + w`.
pub open spec fn v3_fma(u: V3, v: V3, w: V3) -> V3 {
    V3 { x: fma_raw(u.x, v.x, w.x), y: fma_raw(u.y, v.y, w.y), z: fma_raw(u.z, v.z, w.z) }
}

/// Fused multiply-add by a scalar, `u * s + w`.
pub open spec fn v3_fma_s(u: V3, s: int, w: V3) -> V3 {
    V3 { x: fma_raw(u.x, s, w.x), y: fma_raw(u.y, s, w.y), z: fma_raw(u.z, s, w.z) }
}

/// Dot product, fused as `x*x' + (y*y' + (z*z'))` with one truncation per step.
pub open spec fn dot_raw(u: V3, v: V3) -> int {
    fma_raw(u.x, v.x, fma_raw(u.y, v.y, mul_raw(u.z, v.z)))
}

/// Squared length.
pub open spec fn lsq_raw(u: V3) -> int {
    dot_raw(u, u)
}

/// Length: square root of the squared length.
pub open spec fn length_raw(u: V3) -> int {
    sqrt_raw(lsq_raw(u))
}

/// Unit vector: the vector divided by its length.
pub open spec fn unit_raw(u: V3) -> V3 {
    v3_div(u, length_raw(u))
}

/// Cross product, each component fused as `a*b - c*d`: one truncation
/// for the inner product, one for the outer difference.
pub open spec fn cross_raw(u: V3, v: V3) -> V3 {
    V3 {
        x: fma_raw(u.y, v.z, -mul_raw(u.z, v.y)),
        y: fma_raw(u.z, v.x, -mul_raw(u.x, v.z)),
        z: fma_raw(u.x, v.y, -mul_raw(u.y, v.x)),
    }
}

/// Mirror `u` about the plane with normal `n`: `unit(u) - 2*(unit(u)·n)*n`.
pub open spec fn reflect_raw(u: V3, n: V3) -> V3 {
    let w = unit_raw(u);
    v3_sub(w, v3_scale(n, clip(2 * dot_raw(w, n))))
}

/// All three components are exactly zero.
pub open spec fn v3_is_zero(u: V3) -> bool {
    u.x == 0 && u.y == 0 && u.z == 0
}

/// Vectors with a squared length of at least one raw unit have a unit vector.
pub open spec fn has_unit(u: V3) -> bool {
    lsq_raw(u) > 0
}

/// A positive squared length forces a positive length.
pub proof fn lemma_length_pos(u: V3)
    requires
        lsq_raw(u) > 0,
    ensures
        length_raw(u) >= 1000,
{
    let n = lsq_raw(u) * SCALE;
    lemma_sqrt_floor(n);
    let s = sqrt_floor(n);
    if s < 1000 {
        assert((s + 1) * (s + 1) <= 1000 * 1000) by (nonlinear_arith)
            requires 0 <= s < 1000;
    }
}

// SquareRoot
//
/// Component-wise square root.
pub trait SquareRoot: Sized {
    type Output: View;

    /// Model of the result.
    spec fn square_root_spec(self) -> <Self::Output as View>::V;

    /// Component-wise square root.
    fn square_root(self) -> (r: Self::Output)
        ensures
            r@ == self.square_root_spec(),
    ;
}

impl SquareRoot for Vec3 {
    type Output = Self;

    open spec fn square_root_spec(self) -> V3 {
        V3 { x: sqrt_raw(self@.x), y: sqrt_raw(self@.y), z: sqrt_raw(self@.z) }
    }

    fn square_root(self) -> (r: Self)
        ensures
            r@ == self.square_root_spec(),
    {
        Self::new(self.x().sqrt(), self.y().sqrt(), self.z().sqrt())
    }
}

// LengthSquared
//
/// Squared Euclidean length.
pub trait LengthSquared: Sized {
    type Output: View;

    /// Model of the result.
    spec fn length_squared_spec(self) -> <Self::Output as View>::V;

    /// Squared Euclidean length.
    fn length_squared(self) -> (r: Self::Output)
        ensures
            r@ == self.length_squared_spec(),
    ;
}

impl LengthSquared for Vec3 {
    type Output = Fix;

    open spec fn length_squared_spec(self) -> int {
        lsq_raw(self@)
    }

    fn length_squared(self) -> (r: Fix)
        ensures
            r@ == self.length_squared_spec(),
    {
        self.x().mul_add(self.x(), self.y().mul_add(self.y(), self.z().mul(self.z())))
    }
}

// Length
//
/// Euclidean length.
pub trait Length: Sized {
    type Output: View;

    /// Model of the result.
    spec fn length_spec(self) -> <Self::Output as View>::V;

    /// Euclidean length.
    fn length(self) -> (r: Self::Output)
        ensures
            r@ == self.length_spec(),
    ;
}

impl Length for Vec3 {
    type Output = Fix;

    open spec fn length_spec(self) -> int {
        length_raw(self@)
    }

    fn length(self) -> (r: Fix)
        ensures
            r@ == self.length_spec(),
    {
        self.length_squared().sqrt()
    }
}

// Unit
//
/// The vector scaled to length one.
pub trait Unit: Sized {
    type Output: View;

    /// Inputs on which a unit vector exists.
    spec fn unit_req(self) -> bool;

    /// Model of the result.
    spec fn unit_spec(self) -> <Self::Output as View>::V;

    /// The vector scaled to length one.  Callers must never pass a
    /// (near-)zero vector: its direction is undefined.
    fn unit(self) -> (r: Self::Output)
        requires
            self.unit_req(),
        ensures
            r@ == self.unit_spec(),
    ;
}

impl Unit for Vec3 {
    type Output = Self;

    open spec fn unit_req(self) -> bool {
        has_unit(self@)
    }

    open spec fn unit_spec(self) -> V3 {
        unit_raw(self@)
    }

    fn unit(self) -> (r: Self)
        ensures
            r@ == self.unit_spec(),
    {
        proof {
            lemma_length_pos(self@);
        }
        let len = self.length();
        Self::new(self.x().div(len), self.y().div(len), self.z().div(len))
    }
}

// Dot
//
/// Dot product.
pub trait Dot<Rhs>: Sized {
    type Output: View;

    /// Model of the result.
    spec fn dot_spec(self, other: Rhs) -> <Self::Output as View>::V;

    /// Dot product.
    fn dot(self, other: Rhs) -> (r: Self::Output)
        ensures
            r@ == self.dot_spec(other),
    ;
}

impl Dot<Vec3> for Vec3 {
    type Output = Fix;

    open spec fn dot_spec(self, other: Vec3) -> int {
        dot_raw(self@, other@)
    }

    fn dot(self, other: Vec3) -> (r: Fix)
        ensures
            r@ == self.dot_spec(other),
    {
        self.x().mul_add(other.x(), self.y().mul_add(other.y(), self.z().mul(other.z())))
    }
}

// Cross
//
/// Cross product.
pub trait Cross<Rhs>: Sized {
    type Output: View;

    /// Model of the result.
    spec fn cross_spec(self, other: Rhs) -> <Self::Output as View>::V;

    /// Cross product.
    fn cross(self, other: Rhs) -> (r: Self::Output)
        ensures
            r@ == self.cross_spec(other),
    ;
}

impl Cross<Vec3> for Vec3 {
    type Output = Self;

    open spec fn cross_spec(self, other: Vec3) -> V3 {
        cross_raw(self@, other@)
    }

    fn cross(self, other: Vec3) -> (r: Self)
        ensures
            r@ == self.cross_spec(other),
    {
        let e0 = self.y().mul_add(other.z(), self.z().mul(other.y()).neg());
        let e1 = self.z().mul_add(other.x(), self.x().mul(other.z()).neg());
        let e2 = self.x().mul_add(other.y(), self.y().mul(other.x()).neg());
        Self::new(e0, e1, e2)
    }
}

// Zero
//
/// Exact-zero test.
pub trait Zero {
    /// Model of the result.
    spec fn is_zero_spec(&self) -> bool;

    /// True exactly when every component is zero.
    fn is_zero(&self) -> (r: bool)
        ensures
            r == self.is_zero_spec(),
    ;
}

impl Zero for Vec3 {
    open spec fn is_zero_spec(&self) -> bool {
        v3_is_zero(self@)
    }

    fn is_zero(&self) -> (r: bool)
        ensures
            r == self.is_zero_spec(),
    {
        let x = self.x();
        let y = self.y();
        let z = self.z();
        x.is_zero() && y.is_zero() && z.is_zero()
    }
}

// NearZero
//
/// Degenerate-vector test.
pub trait NearZero {
    /// Model of the result.
    spec fn is_near_zero_spec(&self) -> bool;

    /// True when the vector is too short to carry a direction: every
    /// component is below one raw unit in magnitude, hence zero.
    fn is_near_zero(&self) -> (r: bool)
        ensures
            r == self.is_near_zero_spec(),
    ;
}

impl NearZero for Vec3 {
    open spec fn is_near_zero_spec(&self) -> bool {
        v3_is_zero(self@)
    }

    fn is_near_zero(&self) -> (r: bool)
        ensures
            r == self.is_near_zero_spec(),
    {
        let one = Fix::from_micros(1);
        self.x().abs().lt(one) && self.y().abs().lt(one) && self.z().abs().lt(one)
    }
}

// Reflect
//
/// Mirror about a surface normal.
pub trait Reflect<Rhs>: Sized {
    type Output: View;

    /// Inputs on which the reflection is defined.
    spec fn reflect_req(self, normal: Rhs) -> bool;

    /// Model of the result.
    spec fn reflect_spec(self, normal: Rhs) -> <Self::Output as View>::V;

    /// Mirror the direction of `self` about the plane with the given normal.
    fn reflect(self, normal: Rhs) -> (r: Self::Output)
        requires
            self.reflect_req(normal),
        ensures
            r@ == self.reflect_spec(normal),
    ;
}

impl Reflect<Vec3> for Vec3 {
    type Output = Self;

    open spec fn reflect_req(self, normal: Vec3) -> bool {
        has_unit(self@)
    }

    open spec fn reflect_spec(self, normal: Vec3) -> V3 {
        reflect_raw(self@, normal@)
    }

    fn reflect(self, normal: Vec3) -> (r: Self)
        ensures
            r@ == self.reflect_spec(normal),
    {
        let w = self.unit();
        let two = Fix::from_int(2);
        let k = two.mul(w.dot(normal));
        w.sub(normal.scale(k))
    }
}

// MulAdd
//
/// Fused multiply-add.
pub trait MulAdd<Rhs>: View + Sized {
    /// Model of the result.
    spec fn mul_add_spec(self, a: Rhs, b: Self) -> <Self as View>::V;

    /// `self * a + b` with a single truncation per component.
    fn mul_add(self, a: Rhs, b: Self) -> (r: Self)
        ensures
            r@ == self.mul_add_spec(a, b),
    ;
}

impl MulAdd<Vec3> for Vec3 {
    open spec fn mul_add_spec(self, a: Vec3, b: Vec3) -> V3 {
        v3_fma(self@, a@, b@)
    }

    fn mul_add(self, a: Vec3, b: Vec3) -> (r: Self)
        ensures
            r@ == self.mul_add_spec(a, b),
    {
        let e0 = self.x().mul_add(a.x(), b.x());
        let e1 = self.y().mul_add(a.y(), b.y());
        let e2 = self.z().mul_add(a.z(), b.z());
        Self::new(e0, e1, e2)
    }
}

impl MulAdd<Fix> for Vec3 {
    open spec fn mul_add_spec(self, a: Fix, b: Self) -> V3 {
        v3_fma_s(self@, a@, b@)
    }

    fn mul_add(self, a: Fix, b: Self) -> (r: Self)
        ensures
            r@ == self.mul_add_spec(a, b),
    {
        let e0 = self.x().mul_add(a, b.x());
        let e1 = self.y().mul_add(a, b.y());
        let e2 = self.z().mul_add(a, b.z());
        Self::new(e0, e1, e2)
    }
}

/// Attempts a rejection sampler makes before giving up and returning zero.
pub const SAMPLE_TRIES: u32 = 16;

/// Three consecutive draws in `[0, 1)`.
pub open spec fn random_v3_of(m: SamplerModel) -> V3 {
    V3 {
        x: unit_of(s_peek(m)),
        y: unit_of(s_peek(s_adv(m))),
        z: unit_of(s_peek(s_adv(s_adv(m)))),
    }
}

/// Three consecutive draws in `[lo, hi)`.
pub open spec fn ranged_v3_of(lo: int, hi: int, m: SamplerModel) -> V3 {
    V3 {
        x: ranged_of(lo, hi, s_peek(m)),
        y: ranged_of(lo, hi, s_peek(s_adv(m))),
        z: ranged_of(lo, hi, s_peek(s_adv(s_adv(m)))),
    }
}

/// Rejection sampling of the open unit ball: draw a point of the cube
/// `[-1, 1)^3`, keep it when its squared length is below one, give up with
/// the zero vector when the attempts are spent.
pub open spec fn unit_sphere_rec(m: SamplerModel, tries: nat) -> (V3, SamplerModel)
    decreases tries,
{
    if tries == 0 {
        (V3 { x: 0, y: 0, z: 0 }, m)
    } else {
        let c = ranged_v3_of(-SCALE as int, SCALE as int, m);
        let m3 = s_adv_n(m, 3);
        if lsq_raw(c) < SCALE {
            (c, m3)
        } else {
            unit_sphere_rec(m3, (tries - 1) as nat)
        }
    }
}

/// The unit-ball sample and sampler state after a full draw.
pub open spec fn unit_sphere_of(m: SamplerModel) -> (V3, SamplerModel) {
    unit_sphere_rec(m, SAMPLE_TRIES as nat)
}

/// Rejection sampling of the open unit disk (third component zero).
pub open spec fn unit_disk_rec(m: SamplerModel, tries: nat) -> (V3, SamplerModel)
    decreases tries,
{
    if tries == 0 {
        (V3 { x: 0, y: 0, z: 0 }, m)
    } else {
        let c = V3 {
            x: ranged_of(-SCALE as int, SCALE as int, s_peek(m)),
            y: ranged_of(-SCALE as int, SCALE as int, s_peek(s_adv(m))),
            z: 0,
        };
        let m2 = s_adv_n(m, 2);
        if lsq_raw(c) < SCALE {
            (c, m2)
        } else {
            unit_disk_rec(m2, (tries - 1) as nat)
        }
    }
}

/// The unit-disk sample and sampler state after a full draw.
pub open spec fn unit_disk_of(m: SamplerModel) -> (V3, SamplerModel) {
    unit_disk_rec(m, SAMPLE_TRIES as nat)
}

/// The unit-ball sample flipped into the hemisphere of `n`.
pub open spec fn hemisphere_of(n: V3, m: SamplerModel) -> (V3, SamplerModel) {
    let (c, m2) = unit_sphere_of(m);
    if dot_raw(c, n) > 0 {
        (c, m2)
    } else {
        (v3_neg(c), m2)
    }
}

/// The unit-ball sample scaled to length one (the first axis when the
/// sample is too short to carry a direction).
pub open spec fn unit_vector_of(m: SamplerModel) -> (V3, SamplerModel) {
    let (c, m2) = unit_sphere_of(m);
    if lsq_raw(c) > 0 {
        (unit_raw(c), m2)
    } else {
        (V3 { x: SCALE as int, y: 0, z: 0 }, m2)
    }
}

// Random
//
/// A vector of three fresh draws in `[0, 1)`.
pub trait Random: View + Sized {
    /// Model of the result.
    spec fn random_spec(m: SamplerModel) -> <Self as View>::V;

    /// Sampler state after the draw.
    spec fn random_adv(m: SamplerModel) -> SamplerModel;

    /// A value of three fresh draws in `[0, 1)`.
    fn random(s: &mut Sampler) -> (r: Self)
        ensures
            r@ == Self::random_spec(old(s)@),
            final(s)@ == Self::random_adv(old(s)@),
    ;
}

impl Random for Vec3 {
    open spec fn random_spec(m: SamplerModel) -> V3 {
        random_v3_of(m)
    }

    open spec fn random_adv(m: SamplerModel) -> SamplerModel {
        s_adv_n(m, 3)
    }

    fn random(s: &mut Sampler) -> (r: Self)
        ensures
            r@ == Self::random_spec(old(s)@),
            final(s)@ == Self::random_adv(old(s)@),
    {
        let e1 = s.next_unit();
        let e2 = s.next_unit();
        let e3 = s.next_unit();
        proof {
            reveal_with_fuel(s_adv_n, 4);
        }
        Self::new(e1, e2, e3)
    }
}

// RandomRanged
//
/// A fresh draw folded into `[lo, hi)`.
pub trait RandomRanged: View + Sized {
    /// The scalar type of the range ends.
    type RangeType;

    /// Model of the result.
    spec fn random_ranged_spec(lo: Self::RangeType, hi: Self::RangeType, m: SamplerModel) -> <Self as View>::V;

    /// Sampler state after the draw.
    spec fn random_ranged_adv(m: SamplerModel) -> SamplerModel;

    /// A value of fresh draws folded into `[lo, hi)`.
    fn random_ranged(lo: Self::RangeType, hi: Self::RangeType, s: &mut Sampler) -> (r: Self)
        ensures
            r@ == Self::random_ranged_spec(lo, hi, old(s)@),
            final(s)@ == Self::random_ranged_adv(old(s)@),
    ;
}

impl RandomRanged for Fix {
    type RangeType = Fix;

    open spec fn random_ranged_spec(lo: Fix, hi: Fix, m: SamplerModel) -> int {
        ranged_of(lo@, hi@, s_peek(m))
    }

    open spec fn random_ranged_adv(m: SamplerModel) -> SamplerModel {
        s_adv(m)
    }

    fn random_ranged(lo: Fix, hi: Fix, s: &mut Sampler) -> (r: Self)
        ensures
            r@ == Self::random_ranged_spec(lo, hi, old(s)@),
            final(s)@ == Self::random_ranged_adv(old(s)@),
    {
        s.next_ranged(lo, hi)
    }
}

impl RandomRanged for Vec3 {
    type RangeType = Fix;

    open spec fn random_ranged_spec(lo: Fix, hi: Fix, m: SamplerModel) -> V3 {
        ranged_v3_of(lo@, hi@, m)
    }

    open spec fn random_ranged_adv(m: SamplerModel) -> SamplerModel {
        s_adv_n(m, 3)
    }

    fn random_ranged(lo: Fix, hi: Fix, s: &mut Sampler) -> (r: Self)
        ensures
            r@ == Self::random_ranged_spec(lo, hi, old(s)@),
            final(s)@ == Self::random_ranged_adv(old(s)@),
    {
        let e1 = s.next_ranged(lo, hi);
        let e2 = s.next_ranged(lo, hi);
        let e3 = s.next_ranged(lo, hi);
        proof {
            reveal_with_fuel(s_adv_n, 4);
        }
        Self::new(e1, e2, e3)
    }
}

// RandomUnitSphere
//
/// A point of the open unit ball, by rejection sampling.
pub trait RandomUnitSphere: View + Sized {
    /// Model of the result.
    spec fn random_unit_sphere_spec(m: SamplerModel) -> <Self as View>::V;

    /// Sampler state after the draw.
    spec fn random_unit_sphere_adv(m: SamplerModel) -> SamplerModel;

    /// A point of the open unit ball (zero when the attempts are spent).
    fn random_unit_sphere(s: &mut Sampler) -> (r: Self)
        ensures
            r@ == Self::random_unit_sphere_spec(old(s)@),
            final(s)@ == Self::random_unit_sphere_adv(old(s)@),
    ;
}

impl RandomUnitSphere for Vec3 {
    open spec fn random_unit_sphere_spec(m: SamplerModel) -> V3 {
        unit_sphere_of(m).0
    }

    open spec fn random_unit_sphere_adv(m: SamplerModel) -> SamplerModel {
        unit_sphere_of(m).1
    }

    fn random_unit_sphere(s: &mut Sampler) -> (r: Self)
        ensures
            r@ == Self::random_unit_sphere_spec(old(s)@),
            final(s)@ == Self::random_unit_sphere_adv(old(s)@),
    {
        let lo = Fix::from_int(-1);
        let hi = Fix::one();
        let mut tries: u32 = SAMPLE_TRIES;
        while tries > 0
            invariant
                lo@ == -SCALE as int,
                hi@ == SCALE as int,
                unit_sphere_rec(s@, tries as nat) == unit_sphere_of(old(s)@),
            decreases tries,
        {
            let ghost m = s@;
            let c = Self::random_ranged(lo, hi, s);
            let one = Fix::one();
            if c.length_squared().lt(one) {
                proof {
                    reveal_with_fuel(s_adv_n, 4);
                    assert(unit_sphere_rec(m, tries as nat) == (c@, s@));
                }
                return c;
            }
            proof {
                reveal_with_fuel(s_adv_n, 4);
                assert(unit_sphere_rec(m, tries as nat) == unit_sphere_rec(s@, (tries - 1) as nat));
            }
            tries = tries - 1;
        }
        let zero = Fix::zero();
        Self::new(zero, zero, zero)
    }
}

// RandomInHemisphere
//
/// A unit-ball sample flipped into the hemisphere of a normal.
pub trait RandomInHemisphere: View + Sized {
    /// Model of the result.
    spec fn random_in_hemisphere_spec(normal: Self, m: SamplerModel) -> <Self as View>::V;

    /// Sampler state after the draw.
    spec fn random_in_hemisphere_adv(m: SamplerModel) -> SamplerModel;

    /// A unit-ball sample on the same side of the surface as `normal`.
    fn random_in_hemisphere(normal: &Self, s: &mut Sampler) -> (r: Self)
        ensures
            r@ == Self::random_in_hemisphere_spec(*normal, old(s)@),
            final(s)@ == Self::random_in_hemisphere_adv(old(s)@),
    ;
}

impl RandomInHemisphere for Vec3 {
    open spec fn random_in_hemisphere_spec(normal: Vec3, m: SamplerModel) -> V3 {
        hemisphere_of(normal@, m).0
    }

    open spec fn random_in_hemisphere_adv(m: SamplerModel) -> SamplerModel {
        unit_sphere_of(m).1
    }

    fn random_in_hemisphere(normal: &Self, s: &mut Sampler) -> (r: Self)
        ensures
            r@ == Self::random_in_hemisphere_spec(*normal, old(s)@),
            final(s)@ == Self::random_in_hemisphere_adv(old(s)@),
    {
        let c = Self::random_unit_sphere(s);
        let zero = Fix::zero();
        if zero.lt(c.dot(*normal)) {
            c
        } else {
            c.neg()
        }
    }
}

// RandomUnitDisk
//
/// A point of the open unit disk, by rejection sampling.
pub trait RandomUnitDisk: View + Sized {
    /// Model of the result.
    spec fn random_unit_disk_spec(m: SamplerModel) -> <Self as View>::V;

    /// Sampler state after the draw.
    spec fn random_unit_disk_adv(m: SamplerModel) -> SamplerModel;

    /// A point of the open unit disk (zero when the attempts are spent).
    fn random_unit_disk(s: &mut Sampler) -> (r: Self)
        ensures
            r@ == Self::random_unit_disk_spec(old(s)@),
            final(s)@ == Self::random_unit_disk_adv(old(s)@),
    ;
}

impl RandomUnitDisk for Vec3 {
    open spec fn random_unit_disk_spec(m: SamplerModel) -> V3 {
        unit_disk_of(m).0
    }

    open spec fn random_unit_disk_adv(m: SamplerModel) -> SamplerModel {
        unit_disk_of(m).1
    }

    fn random_unit_disk(s: &mut Sampler) -> (r: Self)
        ensures
            r@ == Self::random_unit_disk_spec(old(s)@),
            final(s)@ == Self::random_unit_disk_adv(old(s)@),
    {
        let lo = Fix::from_int(-1);
        let hi = Fix::one();
        let mut tries: u32 = SAMPLE_TRIES;
        while tries > 0
            invariant
                lo@ == -SCALE as int,
                hi@ == SCALE as int,
                unit_disk_rec(s@, tries as nat) == unit_disk_of(old(s)@),
            decreases tries,
        {
            let ghost m = s@;
            let e1 = Fix::random_ranged(lo, hi, s);
            let e2 = Fix::random_ranged(lo, hi, s);
            let zero = Fix::zero();
            let c = Self::new(e1, e2, zero);
            let one = Fix::one();
            if c.length_squared().lt(one) {
                proof {
                    reveal_with_fuel(s_adv_n, 3);
                    assert(unit_disk_rec(m, tries as nat) == (c@, s@));
                }
                return c;
            }
            proof {
                reveal_with_fuel(s_adv_n, 3);
                assert(unit_disk_rec(m, tries as nat) == unit_disk_rec(s@, (tries - 1) as nat));
            }
            tries = tries - 1;
        }
        let zero = Fix::zero();
        Self::new(zero, zero, zero)
    }
}

// RandomUnitVector
//
/// A unit-ball sample scaled to length one.
pub trait RandomUnitVector: View + Sized {
    /// Model of the result.
    spec fn random_unit_vector_spec(m: SamplerModel) -> <Self as View>::V;

    /// Sampler state after the draw.
    spec fn random_unit_vector_adv(m: SamplerModel) -> SamplerModel;

    /// A unit-ball sample scaled to length one (the first axis when the
    /// sample is too short to carry a direction).
    fn random_unit_vector(s: &mut Sampler) -> (r: Self)
        ensures
            r@ == Self::random_unit_vector_spec(old(s)@),
            final(s)@ == Self::random_unit_vector_adv(old(s)@),
    ;
}

impl RandomUnitVector for Vec3 {
    open spec fn random_unit_vector_spec(m: SamplerModel) -> V3 {
        unit_vector_of(m).0
    }

    open spec fn random_unit_vector_adv(m: SamplerModel) -> SamplerModel {
        unit_vector_of(m).1
    }

    fn random_unit_vector(s: &mut Sampler) -> (r: Self)
        ensures
            r@ == Self::random_unit_vector_spec(old(s)@),
            final(s)@ == Self::random_unit_vector_adv(old(s)@),
    {
        let c = Self::random_unit_sphere(s);
        let zero = Fix::zero();
        if zero.lt(c.length_squared()) {
            c.unit()
        } else {
            let one = Fix::one();
            Self::new(one, zero, zero)
        }
    }
}

// Component-wise arithmetic on the concrete vector.
impl ScalarVec3<Fix> {
    /// Component-wise sum.
    pub fn add(self, other: Self) -> (r: Self)
        ensures
            r@ == v3_add(self@, other@),
    {
        Self::new(self.x().add(other.x()), self.y().add(other.y()), self.z().add(other.z()))
    }

    /// Component-wise difference.
    pub fn sub(self, other: Self) -> (r: Self)
        ensures
            r@ == v3_sub(self@, other@),
    {
        Self::new(self.x().sub(other.x()), self.y().sub(other.y()), self.z().sub(other.z()))
    }

    /// Component-wise negation.
    pub fn neg(self) -> (r: Self)
        ensures
            r@ == v3_neg(self@),
    {
        Self::new(self.x().neg(), self.y().neg(), self.z().neg())
    }

    /// Component-wise product.
    pub fn mul(self, other: Self) -> (r: Self)
        ensures
            r@ == v3_mul(self@, other@),
    {
        Self::new(self.x().mul(other.x()), self.y().mul(other.y()), self.z().mul(other.z()))
    }

    /// Product with a scalar.
    pub fn scale(self, s: Fix) -> (r: Self)
        ensures
            r@ == v3_scale(self@, s@),
    {
        Self::new(self.x().mul(s), self.y().mul(s), self.z().mul(s))
    }

    /// Division by a (nonzero) scalar.
    pub fn div(self, s: Fix) -> (r: Self)
        requires
            s@ != 0,
        ensures
            r@ == v3_div(self@, s@),
    {
        Self::new(self.x().div(s), self.y().div(s), self.z().div(s))
    }
}

/// The dot product is symmetric: `u · v == v · u`, rounding included.
pub proof fn lemma_dot_commutes(u: V3, v: V3)
    ensures
        dot_raw(u, v) == dot_raw(v, u),
{
    assert(u.x * v.x == v.x * u.x) by (nonlinear_arith);
    assert(u.y * v.y == v.y * u.y) by (nonlinear_arith);
    assert(u.z * v.z == v.z * u.z) by (nonlinear_arith);
}

/// Negating the right operand negates the dot product exactly.
pub proof fn lemma_dot_neg_right(u: V3, v: V3)
    ensures
        dot_raw(u, v3_neg(v)) == -dot_raw(u, v),
{
    crate::fix::lemma_mul_raw_neg(u.z, v.z);
    let t = mul_raw(u.z, v.z);
    assert(u.y * (-v.y) + (-t) * SCALE == -(u.y * v.y + t * SCALE)) by (nonlinear_arith);
    crate::fix::lemma_tdiv_neg_left(u.y * v.y + t * SCALE, SCALE as int);
    crate::fix::lemma_clip_neg(tdiv(u.y * v.y + t * SCALE, SCALE as int));
    let f = fma_raw(u.y, v.y, t);
    assert(fma_raw(u.y, -v.y, -t) == -f);
    assert(u.x * (-v.x) + (-f) * SCALE == -(u.x * v.x + f * SCALE)) by (nonlinear_arith);
    crate::fix::lemma_tdiv_neg_left(u.x * v.x + f * SCALE, SCALE as int);
    crate::fix::lemma_clip_neg(tdiv(u.x * v.x + f * SCALE, SCALE as int));
}

/// On vectors with whole-number components (within a thousand units),
/// the cross product is exactly orthogonal to both factors: the fixed
/// rounding loses nothing on such inputs.  (On fractional components the
/// dot products are merely near zero.)
pub proof fn lemma_cross_orthogonal_ints(ax: int, ay: int, az: int, bx: int, by: int, bz: int)
    requires
        -1000 <= ax <= 1000,
        -1000 <= ay <= 1000,
        -1000 <= az <= 1000,
        -1000 <= bx <= 1000,
        -1000 <= by <= 1000,
        -1000 <= bz <= 1000,
    ensures
        dot_raw(
            cross_raw(
                V3 { x: ax * SCALE, y: ay * SCALE, z: az * SCALE },
                V3 { x: bx * SCALE, y: by * SCALE, z: bz * SCALE },
            ),
            V3 { x: ax * SCALE, y: ay * SCALE, z: az * SCALE },
        ) == 0,
        dot_raw(
            cross_raw(
                V3 { x: ax * SCALE, y: ay * SCALE, z: az * SCALE },
                V3 { x: bx * SCALE, y: by * SCALE, z: bz * SCALE },
            ),
            V3 { x: bx * SCALE, y: by * SCALE, z: bz * SCALE },
        ) == 0,
{
    let u = V3 { x: ax * SCALE, y: ay * SCALE, z: az * SCALE };
    let v = V3 { x: bx * SCALE, y: by * SCALE, z: bz * SCALE };
    let cx = ay * bz - az * by;
    let cy = az * bx - ax * bz;
    let cz = ax * by - ay * bx;

    assert(mul_raw(u.z, v.y) == (az * by) * SCALE) by {
        lemma_bounded_product(az, by);
        crate::fix::lemma_mul_raw_ints(az, by);
    }
    assert(cross_raw(u, v).x == cx * SCALE) by {
        assert(-(((az * by)) * SCALE) == (-(az * by)) * SCALE) by (nonlinear_arith);
        lemma_bounded_product(ay, bz);
        lemma_bounded_product(az, by);
        crate::fix::lemma_fma_raw_ints(ay, bz, -(az * by));
    }
    assert(mul_raw(u.x, v.z) == (ax * bz) * SCALE) by {
        lemma_bounded_product(ax, bz);
        crate::fix::lemma_mul_raw_ints(ax, bz);
    }
    assert(cross_raw(u, v).y == cy * SCALE) by {
        assert(-(((ax * bz)) * SCALE) == (-(ax * bz)) * SCALE) by (nonlinear_arith);
        lemma_bounded_product(az, bx);
        lemma_bounded_product(ax, bz);
        crate::fix::lemma_fma_raw_ints(az, bx, -(ax * bz));
    }
    assert(mul_raw(u.y, v.x) == (ay * bx) * SCALE) by {
        lemma_bounded_product(ay, bx);
        crate::fix::lemma_mul_raw_ints(ay, bx);
    }
    assert(cross_raw(u, v).z == cz * SCALE) by {
        assert(-(((ay * bx)) * SCALE) == (-(ay * bx)) * SCALE) by (nonlinear_arith);
        lemma_bounded_product(ax, by);
        lemma_bounded_product(ay, bx);
        crate::fix::lemma_fma_raw_ints(ax, by, -(ay * bx));
    }

    assert(-2_000_000 <= cx <= 2_000_000) by (nonlinear_arith)
        requires cx == ay * bz - az * by, -1000 <= ay <= 1000, -1000 <= az <= 1000,
            -1000 <= by <= 1000, -1000 <= bz <= 1000;
    assert(-2_000_000 <= cy <= 2_000_000) by (nonlinear_arith)
        requires cy == az * bx - ax * bz, -1000 <= ax <= 1000, -1000 <= az <= 1000,
            -1000 <= bx <= 1000, -1000 <= bz <= 1000;
    assert(-2_000_000 <= cz <= 2_000_000) by (nonlinear_arith)
        requires cz == ax * by - ay * bx, -1000 <= ax <= 1000, -1000 <= ay <= 1000,
            -1000 <= bx <= 1000, -1000 <= by <= 1000;
    lemma_dot_ints_zero(cx, cy, cz, ax, ay, az, bx, by, bz, true);
    lemma_dot_ints_zero(cx, cy, cz, bx, by, bz, ax, ay, az, false);
}

/// The product of two values below a thousand in magnitude stays far
/// inside the exactness window.
proof fn lemma_bounded_product(a: int, b: int)
    requires
        -1000 <= a <= 1000,
        -1000 <= b <= 1000,
    ensures
        -1_000_000 <= a * b <= 1_000_000,
{
    assert(-1_000_000 <= a * b <= 1_000_000) by (nonlinear_arith)
        requires -1000 <= a <= 1000, -1000 <= b <= 1000;
}

/// The dot product of an exact cross product with either factor is zero.
proof fn lemma_dot_ints_zero(
    cx: int,
    cy: int,
    cz: int,
    wx: int,
    wy: int,
    wz: int,
    ox: int,
    oy: int,
    oz: int,
    first: bool,
)
    requires
        -2_000_000 <= cx <= 2_000_000,
        -2_000_000 <= cy <= 2_000_000,
        -2_000_000 <= cz <= 2_000_000,
        -1000 <= wx <= 1000,
        -1000 <= wy <= 1000,
        -1000 <= wz <= 1000,
        first ==> cx == wy * oz - wz * oy && cy == wz * ox - wx * oz && cz == wx * oy - wy * ox,
        !first ==> cx == oy * wz - oz * wy && cy == oz * wx - ox * wz && cz == ox * wy - oy * wx,
    ensures
        dot_raw(
            V3 { x: cx * SCALE, y: cy * SCALE, z: cz * SCALE },
            V3 { x: wx * SCALE, y: wy * SCALE, z: wz * SCALE },
        ) == 0,
{
    assert(-1_000_000_000_000 <= cz * wz <= 1_000_000_000_000) by (nonlinear_arith)
        requires -2_000_000 <= cz <= 2_000_000, -1000 <= wz <= 1000;
    crate::fix::lemma_mul_raw_ints(cz, wz);
    assert(-1_000_000_000_000 <= cy * wy + cz * wz <= 1_000_000_000_000) by (nonlinear_arith)
        requires -2_000_000 <= cy <= 2_000_000, -1000 <= wy <= 1000,
            -2_000_000 <= cz <= 2_000_000, -1000 <= wz <= 1000;
    crate::fix::lemma_fma_raw_ints(cy, wy, cz * wz);
    if first {
        assert(cx * wx + (cy * wy + cz * wz) == 0) by (nonlinear_arith)
            requires
                cx == wy * oz - wz * oy,
                cy == wz * ox - wx * oz,
                cz == wx * oy - wy * ox;
    } else {
        assert(cx * wx + (cy * wy + cz * wz) == 0) by (nonlinear_arith)
            requires
                cx == oy * wz - oz * wy,
                cy == oz * wx - ox * wz,
                cz == ox * wy - oy * wx;
    }
    crate::fix::lemma_fma_raw_ints(cx, wx, cy * wy + cz * wz);
}

/// The cross product is orthogonal to both factors up to rounding: the
/// dot product with either factor is below three millionths plus two
/// millionths of that factor's coordinate sum — for any vectors within a
/// thousand units, "approximately zero".
pub proof fn lemma_cross_nearly_orthogonal(u: V3, v: V3)
    requires
        abs_int(u.x) <= 1_000_000_000,
        abs_int(u.y) <= 1_000_000_000,
        abs_int(u.z) <= 1_000_000_000,
        abs_int(v.x) <= 1_000_000_000,
        abs_int(v.y) <= 1_000_000_000,
        abs_int(v.z) <= 1_000_000_000,
    ensures
        SCALE * SCALE * abs_int(dot_raw(cross_raw(u, v), u)) <= 3 * SCALE * SCALE + 2 * SCALE * (
        abs_int(u.x) + abs_int(u.y) + abs_int(u.z)),
        SCALE * SCALE * abs_int(dot_raw(cross_raw(u, v), v)) <= 3 * SCALE * SCALE + 2 * SCALE * (
        abs_int(v.x) + abs_int(v.y) + abs_int(v.z)),
{
    let c = cross_raw(u, v);
    lemma_cross_components_close(u, v);
    let cx_true = u.y * v.z - u.z * v.y;
    let cy_true = u.z * v.x - u.x * v.z;
    let cz_true = u.x * v.y - u.y * v.x;
    assert(cx_true * u.x + cy_true * u.y + cz_true * u.z == 0) by (nonlinear_arith)
        requires
            cx_true == u.y * v.z - u.z * v.y,
            cy_true == u.z * v.x - u.x * v.z,
            cz_true == u.x * v.y - u.y * v.x;
    lemma_dot_of_close_cross(c, cx_true, cy_true, cz_true, u.x, u.y, u.z);
    assert(cx_true * v.x + cy_true * v.y + cz_true * v.z == 0) by (nonlinear_arith)
        requires
            cx_true == u.y * v.z - u.z * v.y,
            cy_true == u.z * v.x - u.x * v.z,
            cz_true == u.x * v.y - u.y * v.x;
    lemma_dot_of_close_cross(c, cx_true, cy_true, cz_true, v.x, v.y, v.z);
}

/// Each cross-product component lands within two millionths of the
/// exact value, and stays small enough for further products.
proof fn lemma_cross_components_close(u: V3, v: V3)
    requires
        abs_int(u.x) <= 1_000_000_000,
        abs_int(u.y) <= 1_000_000_000,
        abs_int(u.z) <= 1_000_000_000,
        abs_int(v.x) <= 1_000_000_000,
        abs_int(v.y) <= 1_000_000_000,
        abs_int(v.z) <= 1_000_000_000,
    ensures
        abs_int(cross_raw(u, v).x * SCALE - (u.y * v.z - u.z * v.y)) < 2 * SCALE,
        abs_int(cross_raw(u, v).y * SCALE - (u.z * v.x - u.x * v.z)) < 2 * SCALE,
        abs_int(cross_raw(u, v).z * SCALE - (u.x * v.y - u.y * v.x)) < 2 * SCALE,
        abs_int(cross_raw(u, v).x) <= 3_000_000_000_000,
        abs_int(cross_raw(u, v).y) <= 3_000_000_000_000,
        abs_int(cross_raw(u, v).z) <= 3_000_000_000_000,
{
    lemma_fused_difference_close(u.y, v.z, u.z, v.y);
    lemma_fused_difference_close(u.z, v.x, u.x, v.z);
    lemma_fused_difference_close(u.x, v.y, u.y, v.x);
}

/// The fused `a*b - c*d` (one truncation for the product, one for the
/// sum) lands within two millionths of the exact value.
proof fn lemma_fused_difference_close(a: int, b: int, c: int, d: int)
    requires
        abs_int(a) <= 1_000_000_000,
        abs_int(b) <= 1_000_000_000,
        abs_int(c) <= 1_000_000_000,
        abs_int(d) <= 1_000_000_000,
    ensures
        abs_int(fma_raw(a, b, -mul_raw(c, d)) * SCALE - (a * b - c * d)) < 2 * SCALE,
        abs_int(fma_raw(a, b, -mul_raw(c, d))) <= 3_000_000_000_000,
{
    let big: int = 1_000_000_000_000_000_000;
    assert(-big <= c * d <= big) by (nonlinear_arith)
        requires -1_000_000_000 <= c <= 1_000_000_000, -1_000_000_000 <= d <= 1_000_000_000,
            big == 1_000_000_000_000_000_000int;
    assert(-big <= a * b <= big) by (nonlinear_arith)
        requires -1_000_000_000 <= a <= 1_000_000_000, -1_000_000_000 <= b <= 1_000_000_000,
            big == 1_000_000_000_000_000_000int;
    crate::fix::lemma_mul_raw_close(c, d);
    let m = mul_raw(c, d);
    assert((-m) * SCALE == -(m * SCALE)) by (nonlinear_arith);
    assert(-2 * big <= a * b + (-m) * SCALE <= 2 * big);
    assert(abs_int(a * b + (-m) * SCALE) <= 1_000_000_000_000_000_000_000_000);
    crate::fix::lemma_fma_raw_close(a, b, -m);
    let e = fma_raw(a, b, -m);
    assert(abs_int(e * SCALE - (a * b - c * d)) < 2 * SCALE);
    let es = e * SCALE;
    assert(-2 * big - 2 * SCALE <= es <= 2 * big + 2 * SCALE);
    assert(-3_000_000_000_000 <= e <= 3_000_000_000_000) by (nonlinear_arith)
        requires
            -2_000_000_000_000_000_000 - 2_000_000 <= e * SCALE <= 2_000_000_000_000_000_000
                + 2_000_000,
            SCALE == 1_000_000int;
}

/// The rounded dot product of an almost-exact cross product with a
/// factor it is exactly orthogonal to is almost zero.
proof fn lemma_dot_of_close_cross(
    c: V3,
    cx_true: int,
    cy_true: int,
    cz_true: int,
    wx: int,
    wy: int,
    wz: int,
)
    requires
        abs_int(c.x * SCALE - cx_true) < 2 * SCALE,
        abs_int(c.y * SCALE - cy_true) < 2 * SCALE,
        abs_int(c.z * SCALE - cz_true) < 2 * SCALE,
        abs_int(c.x) <= 3_000_000_000_000,
        abs_int(c.y) <= 3_000_000_000_000,
        abs_int(c.z) <= 3_000_000_000_000,
        abs_int(wx) <= 1_000_000_000,
        abs_int(wy) <= 1_000_000_000,
        abs_int(wz) <= 1_000_000_000,
        cx_true * wx + cy_true * wy + cz_true * wz == 0,
    ensures
        SCALE * SCALE * abs_int(dot_raw(c, V3 { x: wx, y: wy, z: wz })) <= 3 * SCALE * SCALE + 2
            * SCALE * (abs_int(wx) + abs_int(wy) + abs_int(wz)),
{
    let w = V3 { x: wx, y: wy, z: wz };
    let big: int = 3_000_000_000_000_000_000_000;

    // Each rounding of the dot chain moves the value by under one unit.
    assert(-big <= c.z * wz <= big) by (nonlinear_arith)
        requires -3_000_000_000_000 <= c.z <= 3_000_000_000_000,
            -1_000_000_000 <= wz <= 1_000_000_000, big == 3_000_000_000_000_000_000_000int;
    assert(abs_int(c.z * wz) <= 1_000_000_000_000_000_000_000_000);
    crate::fix::lemma_mul_raw_close(c.z, wz);
    let m1 = mul_raw(c.z, wz);
    assert(-big - SCALE <= m1 * SCALE <= big + SCALE);
    assert(-big <= c.y * wy <= big) by (nonlinear_arith)
        requires -3_000_000_000_000 <= c.y <= 3_000_000_000_000,
            -1_000_000_000 <= wy <= 1_000_000_000, big == 3_000_000_000_000_000_000_000int;
    assert(abs_int(c.y * wy + m1 * SCALE) <= 1_000_000_000_000_000_000_000_000);
    crate::fix::lemma_fma_raw_close(c.y, wy, m1);
    let f2 = fma_raw(c.y, wy, m1);
    assert(abs_int(f2 * SCALE - (c.y * wy + c.z * wz)) < 2 * SCALE);
    assert(-2 * big - 2 * SCALE <= f2 * SCALE <= 2 * big + 2 * SCALE);
    assert(-7_000_000_000_000_000 <= f2 <= 7_000_000_000_000_000) by (nonlinear_arith)
        requires
            -6_000_000_000_000_000_000_000 - 2_000_000 <= f2 * SCALE
                <= 6_000_000_000_000_000_000_000 + 2_000_000,
            SCALE == 1_000_000int;
    assert(-big <= c.x * wx <= big) by (nonlinear_arith)
        requires -3_000_000_000_000 <= c.x <= 3_000_000_000_000,
            -1_000_000_000 <= wx <= 1_000_000_000, big == 3_000_000_000_000_000_000_000int;
    assert(-7_000_000_000_000_000_000_000 <= f2 * SCALE <= 7_000_000_000_000_000_000_000)
        by (nonlinear_arith)
        requires -7_000_000_000_000_000 <= f2 <= 7_000_000_000_000_000, SCALE == 1_000_000int;
    assert(abs_int(c.x * wx + f2 * SCALE) <= 1_000_000_000_000_000_000_000_000);
    crate::fix::lemma_fma_raw_close(c.x, wx, f2);
    let dd = dot_raw(c, w);
    assert(abs_int(dd * SCALE - (c.x * wx + c.y * wy + c.z * wz)) < 3 * SCALE);

    // Scale once more: the true cross terms cancel exactly, and only the
    // roundings times the coordinates are left.
    let ax = abs_int(wx);
    let ay = abs_int(wy);
    let az = abs_int(wz);
    let ex = c.x * SCALE - cx_true;
    let ey = c.y * SCALE - cy_true;
    let ez = c.z * SCALE - cz_true;
    assert(SCALE * (c.x * wx) == cx_true * wx + ex * wx) by (nonlinear_arith)
        requires ex == c.x * SCALE - cx_true;
    assert(SCALE * (c.y * wy) == cy_true * wy + ey * wy) by (nonlinear_arith)
        requires ey == c.y * SCALE - cy_true;
    assert(SCALE * (c.z * wz) == cz_true * wz + ez * wz) by (nonlinear_arith)
        requires ez == c.z * SCALE - cz_true;
    assert(abs_int(ex * wx) <= 2 * SCALE * ax) by (nonlinear_arith)
        requires -2 * SCALE < ex < 2 * SCALE, -ax <= wx <= ax, 0 <= ax,
            abs_int(ex * wx) >= ex * wx, abs_int(ex * wx) >= -(ex * wx), abs_int(ex * wx) >= 0,
            abs_int(ex * wx) == ex * wx || abs_int(ex * wx) == -(ex * wx);
    assert(abs_int(ey * wy) <= 2 * SCALE * ay) by (nonlinear_arith)
        requires -2 * SCALE < ey < 2 * SCALE, -ay <= wy <= ay, 0 <= ay,
            abs_int(ey * wy) >= ey * wy, abs_int(ey * wy) >= -(ey * wy), abs_int(ey * wy) >= 0,
            abs_int(ey * wy) == ey * wy || abs_int(ey * wy) == -(ey * wy);
    assert(abs_int(ez * wz) <= 2 * SCALE * az) by (nonlinear_arith)
        requires -2 * SCALE < ez < 2 * SCALE, -az <= wz <= az, 0 <= az,
            abs_int(ez * wz) >= ez * wz, abs_int(ez * wz) >= -(ez * wz), abs_int(ez * wz) >= 0,
            abs_int(ez * wz) == ez * wz || abs_int(ez * wz) == -(ez * wz);
    let sum = c.x * wx + c.y * wy + c.z * wz;
    assert(SCALE * sum == ex * wx + ey * wy + ez * wz) by (nonlinear_arith)
        requires
            SCALE * (c.x * wx) == cx_true * wx + ex * wx,
            SCALE * (c.y * wy) == cy_true * wy + ey * wy,
            SCALE * (c.z * wz) == cz_true * wz + ez * wz,
            cx_true * wx + cy_true * wy + cz_true * wz == 0,
            sum == c.x * wx + c.y * wy + c.z * wz;
    assert(abs_int(SCALE * sum) <= 2 * SCALE * (ax + ay + az));
    let e3 = dd * SCALE - sum;
    assert(SCALE * (dd * SCALE) == SCALE * sum + SCALE * e3) by (nonlinear_arith)
        requires e3 == dd * SCALE - sum;
    assert(abs_int(SCALE * e3) < 3 * SCALE * SCALE) by (nonlinear_arith)
        requires -3 * SCALE < e3 < 3 * SCALE, SCALE == 1_000_000int,
            abs_int(SCALE * e3) >= SCALE * e3, abs_int(SCALE * e3) >= -(SCALE * e3),
            abs_int(SCALE * e3) == SCALE * e3 || abs_int(SCALE * e3) == -(SCALE * e3);
    assert(SCALE * (dd * SCALE) == SCALE * SCALE * dd) by (nonlinear_arith);
    assert(-(3 * SCALE * SCALE + 2 * SCALE * (ax + ay + az)) <= SCALE * SCALE * dd <= 3 * SCALE
        * SCALE + 2 * SCALE * (ax + ay + az));
    assert(SCALE * SCALE * (-dd) == -(SCALE * SCALE * dd)) by (nonlinear_arith);
}

/// The fixed-point squared length lands within three millionths of the
/// exact sum of squares, for components up to half a million units.
proof fn lemma_sum_squares_close(v: V3)
    requires
        abs_int(v.x) <= 1_000_200,
        abs_int(v.y) <= 1_000_200,
        abs_int(v.z) <= 1_000_200,
    ensures
        abs_int(lsq_raw(v) * SCALE - (v.x * v.x + v.y * v.y + v.z * v.z)) < 3 * SCALE,
{
    lemma_sum_squares_close_wide(v);
}

/// The same closeness for any components within the product range.
proof fn lemma_sum_squares_close_wide(v: V3)
    requires
        abs_int(v.x) <= 500_000_000_000,
        abs_int(v.y) <= 500_000_000_000,
        abs_int(v.z) <= 500_000_000_000,
    ensures
        abs_int(lsq_raw(v) * SCALE - (v.x * v.x + v.y * v.y + v.z * v.z)) < 3 * SCALE,
{
    let big: int = 250_000_000_000_000_000_000_000;
    assert(0 <= v.z * v.z <= big) by (nonlinear_arith)
        requires -500_000_000_000 <= v.z <= 500_000_000_000,
            big == 250_000_000_000_000_000_000_000int;
    crate::fix::lemma_mul_raw_close(v.z, v.z);
    let m = mul_raw(v.z, v.z);
    assert(0 <= v.y * v.y <= big) by (nonlinear_arith)
        requires -500_000_000_000 <= v.y <= 500_000_000_000,
            big == 250_000_000_000_000_000_000_000int;
    assert(abs_int(v.y * v.y + m * SCALE) <= 1_000_000_000_000_000_000_000_000);
    crate::fix::lemma_fma_raw_close(v.y, v.y, m);
    let f = fma_raw(v.y, v.y, m);
    assert(abs_int(f * SCALE - (v.y * v.y + v.z * v.z)) < 2 * SCALE);
    assert(0 <= v.x * v.x <= big) by (nonlinear_arith)
        requires -500_000_000_000 <= v.x <= 500_000_000_000,
            big == 250_000_000_000_000_000_000_000int;
    assert(abs_int(v.x * v.x + f * SCALE) <= 1_000_000_000_000_000_000_000_000);
    crate::fix::lemma_fma_raw_close(v.x, v.x, f);
}

/// Any vector of length at least a tenth of a unit (and at most half a
/// million units per coordinate) normalizes to a vector whose squared
/// length is one to within 400 millionths.  Shorter vectors lose too
/// much to the fixed rounding and are excluded.
pub proof fn lemma_unit_length_close(v: V3)
    requires
        lsq_raw(v) >= 10_000,
        abs_int(v.x) <= 500_000_000_000,
        abs_int(v.y) <= 500_000_000_000,
        abs_int(v.z) <= 500_000_000_000,
    ensures
        abs_int(lsq_raw(unit_raw(v)) - SCALE) <= 400,
        abs_int(length_raw(unit_raw(v)) - SCALE) <= 201,
{
    let s2 = v.x * v.x + v.y * v.y + v.z * v.z;
    lemma_sum_squares_close_wide(v);
    let l2 = lsq_raw(v);
    let n = l2 * SCALE;
    lemma_sqrt_floor(n);
    let ell = sqrt_floor(n);
    assert(length_raw(v) == ell);
    assert(ell >= 100_000) by (nonlinear_arith)
        requires ell >= 0, n < (ell + 1) * (ell + 1), n >= 10_000_000_000;

    // Every coordinate is at most a hair beyond the length.
    assert(s2 < n + 3 * SCALE);
    assert(s2 >= n - 3 * SCALE);
    lemma_coordinate_bounded(v.x, v.y, v.z, ell);
    lemma_coordinate_bounded(v.y, v.x, v.z, ell);
    lemma_coordinate_bounded(v.z, v.x, v.y, ell);

    // The unit coordinates: exact quotients, never saturated.
    let tx = tdiv(v.x * SCALE, ell);
    let ty = tdiv(v.y * SCALE, ell);
    let tz = tdiv(v.z * SCALE, ell);
    crate::fix::lemma_tdiv_close(v.x * SCALE, ell);
    crate::fix::lemma_tdiv_close(v.y * SCALE, ell);
    crate::fix::lemma_tdiv_close(v.z * SCALE, ell);
    lemma_quotient_bounded(v.x, tx, ell);
    lemma_quotient_bounded(v.y, ty, ell);
    lemma_quotient_bounded(v.z, tz, ell);
    let u = unit_raw(v);
    assert(u == V3 { x: tx, y: ty, z: tz });

    // The squared length of the unit vector, against the exact sum.
    lemma_sum_squares_close(u);
    let su = tx * tx + ty * ty + tz * tz;

    // Expand each (t * ell)^2 around (v * SCALE)^2.
    let rx = tx * ell - v.x * SCALE;
    let ry = ty * ell - v.y * SCALE;
    let rz = tz * ell - v.z * SCALE;
    assert(ell * ell * (tx * tx) == SCALE * SCALE * (v.x * v.x) + 2 * SCALE * (v.x * rx) + rx * rx)
        by (nonlinear_arith)
        requires rx == tx * ell - v.x * SCALE;
    assert(ell * ell * (ty * ty) == SCALE * SCALE * (v.y * v.y) + 2 * SCALE * (v.y * ry) + ry * ry)
        by (nonlinear_arith)
        requires ry == ty * ell - v.y * SCALE;
    assert(ell * ell * (tz * tz) == SCALE * SCALE * (v.z * v.z) + 2 * SCALE * (v.z * rz) + rz * rz)
        by (nonlinear_arith)
        requires rz == tz * ell - v.z * SCALE;
    let cross = v.x * rx + v.y * ry + v.z * rz;
    let rr = rx * rx + ry * ry + rz * rz;
    assert(ell * ell * su == SCALE * SCALE * s2 + 2 * SCALE * cross + rr) by (nonlinear_arith)
        requires
            ell * ell * (tx * tx) == SCALE * SCALE * (v.x * v.x) + 2 * SCALE * (v.x * rx) + rx
                * rx,
            ell * ell * (ty * ty) == SCALE * SCALE * (v.y * v.y) + 2 * SCALE * (v.y * ry) + ry
                * ry,
            ell * ell * (tz * tz) == SCALE * SCALE * (v.z * v.z) + 2 * SCALE * (v.z * rz) + rz
                * rz,
            su == tx * tx + ty * ty + tz * tz,
            s2 == v.x * v.x + v.y * v.y + v.z * v.z,
            cross == v.x * rx + v.y * ry + v.z * rz,
            rr == rx * rx + ry * ry + rz * rz;

    // Bound the error terms against the square of the length.
    assert(abs_int(v.x * rx) <= (ell + 17) * ell) by (nonlinear_arith)
        requires -(ell + 17) <= v.x <= ell + 17, -ell < rx < ell, ell > 0;
    assert(abs_int(v.y * ry) <= (ell + 17) * ell) by (nonlinear_arith)
        requires -(ell + 17) <= v.y <= ell + 17, -ell < ry < ell, ell > 0;
    assert(abs_int(v.z * rz) <= (ell + 17) * ell) by (nonlinear_arith)
        requires -(ell + 17) <= v.z <= ell + 17, -ell < rz < ell, ell > 0;
    assert(0 <= rr <= 3 * (ell * ell)) by (nonlinear_arith)
        requires -ell < rx < ell, -ell < ry < ell, -ell < rz < ell,
            rr == rx * rx + ry * ry + rz * rz;
    assert(2 * SCALE * abs_int(cross) <= 6 * SCALE * ((ell + 17) * ell));
    assert(6 * SCALE * ((ell + 17) * ell) <= 7_000_000 * (ell * ell)) by (nonlinear_arith)
        requires ell >= 100_000, SCALE == 1_000_000int;

    // The exact sum of squares sits between the bracketing squares.
    assert(SCALE * SCALE * s2 >= SCALE * SCALE * (ell * ell) - 3_000_000_000_000_000_000)
        by (nonlinear_arith)
        requires s2 >= n - 3 * SCALE, n >= ell * ell, SCALE == 1_000_000int;
    assert(SCALE * SCALE * s2 <= SCALE * SCALE * (ell * ell) + SCALE * SCALE * (2 * ell + 1) + 3_000_000_000_000_000_000)
        by (nonlinear_arith)
        requires s2 < n + 3 * SCALE, n < (ell + 1) * (ell + 1), SCALE == 1_000_000int;
    assert(3_000_000_000_000_000_000 <= 300_000_000 * (ell * ell)) by (nonlinear_arith)
        requires ell >= 100_000;
    assert(SCALE * SCALE * (2 * ell + 1) <= 21_000_000 * (ell * ell)) by (nonlinear_arith)
        requires ell >= 100_000, SCALE == 1_000_000int;

    // Put together: the unit's exact sum of squares is one, give or take.
    assert(ell * ell * su >= ell * ell * (SCALE * SCALE) - 308_000_000 * (ell * ell))
        by (nonlinear_arith)
        requires
            ell * ell * su == SCALE * SCALE * s2 + 2 * SCALE * cross + rr,
            SCALE * SCALE * s2 >= SCALE * SCALE * (ell * ell) - 300_000_000 * (ell * ell),
            2 * SCALE * cross >= -7_000_000 * (ell * ell),
            rr >= 0,
            SCALE * SCALE * (ell * ell) == ell * ell * (SCALE * SCALE);
    assert(ell * ell * su <= ell * ell * (SCALE * SCALE) + 332_000_000 * (ell * ell))
        by (nonlinear_arith)
        requires
            ell * ell * su == SCALE * SCALE * s2 + 2 * SCALE * cross + rr,
            SCALE * SCALE * s2 <= SCALE * SCALE * (ell * ell) + 300_000_000 * (ell * ell)
                + 21_000_000 * (ell * ell),
            2 * SCALE * cross <= 7_000_000 * (ell * ell),
            rr <= 3 * (ell * ell),
            SCALE * SCALE * (ell * ell) == ell * ell * (SCALE * SCALE);
    assert(SCALE * SCALE - 308_000_000 <= su <= SCALE * SCALE + 332_000_000) by (nonlinear_arith)
        requires
            ell * ell * su >= ell * ell * (SCALE * SCALE) - 308_000_000 * (ell * ell),
            ell * ell * su <= ell * ell * (SCALE * SCALE) + 332_000_000 * (ell * ell),
            ell >= 100_000;

    // And the rounded squared length follows it within three units.
    assert(abs_int(lsq_raw(u) * SCALE - su) < 3 * SCALE);
    assert(abs_int(lsq_raw(u) - SCALE) <= 400) by (nonlinear_arith)
        requires
            -3 * SCALE < lsq_raw(u) * SCALE - su < 3 * SCALE,
            SCALE * SCALE - 308_000_000 <= su <= SCALE * SCALE + 332_000_000,
            SCALE == 1_000_000int,
            abs_int(lsq_raw(u) - SCALE) == if lsq_raw(u) - SCALE >= 0 {
                lsq_raw(u) - SCALE
            } else {
                -(lsq_raw(u) - SCALE)
            };

    // The length itself: the square root lands within the bracket.
    let lu = lsq_raw(u);
    let nu = lu * SCALE;
    lemma_sqrt_floor(nu);
    let root = sqrt_floor(nu);
    assert(length_raw(u) == root);
    assert((SCALE - 201) * (SCALE - 201) <= nu) by (nonlinear_arith)
        requires nu == lu * SCALE, lu >= SCALE - 400, SCALE == 1_000_000int;
    assert(nu < (SCALE + 201) * (SCALE + 201)) by (nonlinear_arith)
        requires nu == lu * SCALE, lu <= SCALE + 400, SCALE == 1_000_000int;
    assert(root >= SCALE - 201) by (nonlinear_arith)
        requires
            root >= 0,
            nu < (root + 1) * (root + 1),
            (SCALE - 201) * (SCALE - 201) <= nu,
            SCALE == 1_000_000int;
    assert(root <= SCALE + 200) by (nonlinear_arith)
        requires
            root * root <= nu,
            nu < (SCALE + 201) * (SCALE + 201),
            root >= 0,
            SCALE == 1_000_000int;
}

/// A coordinate of a vector cannot outreach the vector's length by more
/// than the rounding slack.
proof fn lemma_coordinate_bounded(a: int, b: int, c: int, ell: int)
    requires
        a * a + b * b + c * c < (ell + 1) * (ell + 1) + 3 * SCALE,
        ell >= 100_000,
    ensures
        abs_int(a) <= ell + 17,
{
    if a > ell + 17 || a < -(ell + 17) {
        assert(a * a >= (ell + 18) * (ell + 18)) by (nonlinear_arith)
            requires a >= ell + 18 || a <= -(ell + 18), ell >= 0;
        assert((ell + 18) * (ell + 18) >= (ell + 1) * (ell + 1) + 3 * SCALE) by (nonlinear_arith)
            requires ell >= 100_000, SCALE == 1_000_000int;
        assert(b * b >= 0 && c * c >= 0) by (nonlinear_arith);
    }
}

/// A quotient of a bounded coordinate stays well inside the raw range,
/// so the saturation does nothing.
proof fn lemma_quotient_bounded(a: int, t: int, ell: int)
    requires
        abs_int(a) <= ell + 17,
        abs_int(t * ell - a * SCALE) < ell,
        ell >= 100_000,
    ensures
        abs_int(t) <= 1_000_172,
        clip(t) == t,
{
    assert(-1_000_172 <= t <= 1_000_172) by (nonlinear_arith)
        requires
            -(ell + 17) <= a <= ell + 17,
            -ell < t * ell - a * SCALE < ell,
            ell >= 100_000,
            SCALE == 1_000_000int;
}

/// The unit vector of an axis-aligned vector with a whole-number length
/// has length exactly one.  (General vectors normalize to length one only
/// up to the rounding of the division and the square root.)
pub proof fn lemma_unit_axis_length(k: int)
    requires
        1 <= k <= 1_000_000,
    ensures
        unit_raw(V3 { x: k * SCALE, y: 0, z: 0 }) == (V3 { x: SCALE as int, y: 0, z: 0 }),
        length_raw(unit_raw(V3 { x: k * SCALE, y: 0, z: 0 })) == SCALE,
{
    let u = V3 { x: k * SCALE, y: 0, z: 0 };
    assert(mul_raw(0, 0) == 0);
    assert(fma_raw(0, 0, 0) == 0);
    assert(-1_000_000_000_000 <= k * k <= 1_000_000_000_000) by (nonlinear_arith)
        requires 1 <= k <= 1_000_000;
    crate::fix::lemma_fma_raw_ints(k, k, 0);
    assert(lsq_raw(u) == (k * k) * SCALE);
    crate::fix::lemma_sqrt_raw_square(k);
    assert((k * k) * SCALE > 0) by (nonlinear_arith)
        requires 1 <= k;
    assert(length_raw(u) == k * SCALE);
    assert(div_raw(k * SCALE, k * SCALE) == SCALE) by {
        assert((k * SCALE) * SCALE == SCALE * (k * SCALE)) by (nonlinear_arith);
        crate::fix::lemma_tdiv_mult_exact(SCALE as int, k * SCALE);
        assert(k * SCALE > 0) by (nonlinear_arith)
            requires 1 <= k, SCALE > 0;
    }
    assert(div_raw(0, k * SCALE) == 0) by {
        assert(0 * (k * SCALE) == 0) by (nonlinear_arith);
        crate::fix::lemma_tdiv_mult_exact(0, k * SCALE);
        assert(k * SCALE > 0) by (nonlinear_arith)
            requires 1 <= k, SCALE > 0;
    }
    let w = unit_raw(u);
    assert(w == V3 { x: SCALE as int, y: 0, z: 0 });
    crate::fix::lemma_fma_raw_ints(1, 1, 0);
    assert(1 * SCALE == SCALE as int) by (nonlinear_arith);
    assert(lsq_raw(w) == (1 * 1 + 0) * SCALE);
    crate::fix::lemma_sqrt_raw_square(1);
    assert((1 * 1) * SCALE == SCALE as int) by (nonlinear_arith);
}

/// The refracted direction by Snell's law: `cos = min(-uv·n, 1)`,
/// `perp = ratio * (n * cos + uv)`, `par = -sqrt(|1 - |perp|^2|) * n`.
pub open spec fn refract_raw(uv: V3, n: V3, ratio: int) -> V3 {
    let d = dot_raw(v3_neg(uv), n);
    let cos = if d <= SCALE { d } else { SCALE as int };
    let perp = v3_scale(v3_fma_s(n, cos, uv), ratio);
    let t = clip(SCALE - lsq_raw(perp));
    let k = -sqrt_raw(if t >= 0 { t } else { -t });
    v3_add(perp, v3_scale(n, k))
}

/// Refract the unit direction `uv` through a surface with normal `normal`,
/// with `etai_over_etat` the ratio of the refractive indices.
pub fn refract(uv: Vec3, normal: &Vec3, etai_over_etat: Fix) -> (r: Vec3)
    ensures
        r@ == refract_raw(uv@, normal@, etai_over_etat@),
{
    let one = Fix::one();
    let cos_theta = uv.neg().dot(*normal).min_with(one);
    let r_out_perp = normal.mul_add(cos_theta, uv).scale(etai_over_etat);
    let k = one.sub(r_out_perp.length_squared()).abs().sqrt().neg();
    let r_out_parallel = normal.scale(k);
    r_out_perp.add(r_out_parallel)
}

impl Default for ScalarVec3<Fix> {
    /// The zero vector.
    fn default() -> (r: Self)
        ensures
            v3_is_zero(r@),
    {
        Self::new(Fix::zero(), Fix::zero(), Fix::zero())
    }
}

} // verus!
