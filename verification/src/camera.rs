//! The camera: normalized image-plane coordinates to world-space rays.

use crate::fix::{div_raw, mul_raw, Fix, SCALE};
use crate::point3::Point3;
use crate::ray::{Ray, RayModel};
use crate::sampler::{Sampler, SamplerModel};
use crate::vec3::{
    cross_raw, has_unit, unit_disk_of, unit_raw, v3_add, v3_div, v3_fma_s, v3_scale, v3_sub,
    Cross, MulAdd, RandomUnitDisk, Unit, Vec3, V3,
};
use vstd::prelude::*;

verus! {

/// Mathematical model of a camera: the precomputed frame.
pub struct CameraModel {
    pub origin: V3,
    pub lower_left_corner: V3,
    pub horizontal: V3,
    pub vertical: V3,
    pub u: V3,
    pub v: V3,
    pub lens_radius: int,
}

/// The frame a camera precomputes from its description: the orthonormal
/// basis `(u, v, w)`, the viewport extents scaled by the focus distance,
/// the lower-left corner of the image plane, and the lens radius.
pub open spec fn camera_setup(
    look_from: V3,
    look_at: V3,
    up: V3,
    tan_half_fov: int,
    aspect_ratio: int,
    aperture: int,
    focus_distance: int,
) -> CameraModel {
    let viewport_height = mul_raw(2 * SCALE, tan_half_fov);
    let viewport_width = mul_raw(aspect_ratio, viewport_height);
    let w = unit_raw(v3_sub(look_from, look_at));
    let u = unit_raw(cross_raw(up, w));
    let v = cross_raw(w, u);
    let horizontal = v3_scale(u, mul_raw(focus_distance, viewport_width));
    let vertical = v3_scale(v, mul_raw(focus_distance, viewport_height));
    let lower_left_corner = v3_sub(
        v3_sub(look_from, v3_div(v3_add(horizontal, vertical), 2 * SCALE)),
        v3_scale(w, focus_distance),
    );
    CameraModel {
        origin: look_from,
        lower_left_corner,
        horizontal,
        vertical,
        u,
        v,
        lens_radius: div_raw(aperture, 2 * SCALE),
    }
}

/// The ray for screen coordinates `(s, t)`, its origin jittered across the
/// lens by a unit-disk sample.
pub open spec fn camera_ray(c: CameraModel, s: int, t: int, m: SamplerModel) -> RayModel {
    let (d, _) = unit_disk_of(m);
    let rd = v3_scale(d, c.lens_radius);
    let origin = v3_fma_s(c.u, rd.x, v3_fma_s(c.v, rd.y, c.origin));
    let direction = v3_fma_s(
        c.horizontal,
        s,
        v3_fma_s(c.vertical, t, v3_sub(c.lower_left_corner, origin)),
    );
    RayModel { orig: origin, dir: direction }
}

/// Sampler state after one camera ray: a unit-disk sample was drawn.
pub open spec fn camera_ray_adv(m: SamplerModel) -> SamplerModel {
    unit_disk_of(m).1
}

/// Maps normalized screen coordinates to world-space rays, with a lens
/// aperture for defocus blur.
pub struct Camera {
    origin: Point3,
    lower_left_corner: Point3,
    horizontal: Vec3,
    vertical: Vec3,
    u: Vec3,
    v: Vec3,
    lens_radius: Fix,
}

impl View for Camera {
    type V = CameraModel;

    closed spec fn view(&self) -> CameraModel {
        CameraModel {
            origin: self.origin@,
            lower_left_corner: self.lower_left_corner@,
            horizontal: self.horizontal@,
            vertical: self.vertical@,
            u: self.u@,
            v: self.v@,
            lens_radius: self.lens_radius@,
        }
    }
}

impl Camera {
    /// Precompute the camera frame.  `tan_half_fov` is the tangent of half
    /// the vertical field of view (the half-height of a viewport one unit
    /// away).  The view direction must be long enough to normalize, and
    /// `up` must not be parallel to it.
    pub fn new(
        look_from: Point3,
        look_at: Point3,
        up: Vec3,
        tan_half_fov: Fix,
        aspect_ratio: Fix,
        aperture: Fix,
        focus_distance: Fix,
    ) -> (r: Self)
        requires
            has_unit(v3_sub(look_from@, look_at@)),
            has_unit(cross_raw(up@, unit_raw(v3_sub(look_from@, look_at@)))),
        ensures
            r@ == camera_setup(
                look_from@,
                look_at@,
                up@,
                tan_half_fov@,
                aspect_ratio@,
                aperture@,
                focus_distance@,
            ),
    {
        let two = Fix::from_int(2);
        let viewport_height = two.mul(tan_half_fov);
        let viewport_width = aspect_ratio.mul(viewport_height);

        let w = look_from.sub(look_at).unit();
        let u = up.cross(w).unit();
        let v = w.cross(u);

        let origin = look_from;
        let horizontal = u.scale(focus_distance.mul(viewport_width));
        let vertical = v.scale(focus_distance.mul(viewport_height));
        let lower_left_corner = origin.sub(horizontal.add(vertical).div(two)).sub(
            w.scale(focus_distance),
        );

        let lens_radius = aperture.div(two);

        Self { origin, lower_left_corner, horizontal, vertical, u, v, lens_radius }
    }

    /// The ray for screen coordinates `(s, t)` in `[0, 1]^2`, the origin
    /// jittered across the lens aperture.
    pub fn get_ray(&self, s: Fix, t: Fix, smp: &mut Sampler) -> (r: Ray)
        ensures
            r@ == camera_ray(self@, s@, t@, old(smp)@),
            final(smp)@ == camera_ray_adv(old(smp)@),
    {
        let rd = Vec3::random_unit_disk(smp).scale(self.lens_radius);

        let origin = self.u.mul_add(rd.x(), self.v.mul_add(rd.y(), self.origin));

        let direction = self.horizontal.mul_add(
            s,
            self.vertical.mul_add(t, self.lower_left_corner.sub(origin)),
        );

        Ray::new(origin, direction)
    }
}

} // verus!
