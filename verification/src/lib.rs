//! A small path tracer, verified end to end over exact fixed-point
//! arithmetic.
//!
//! Rays are bounced through a scene of spheres according to per-material
//! scattering laws; rows of pixels are leased out, computed, returned to a
//! buffer and serialized to a plain-text image.  Every stochastic choice
//! draws from an explicit sampler tape, so the whole pipeline is a pure
//! function of the scene, the render parameters and the tape.

pub mod buffer;
pub mod camera;
pub mod color;
pub mod dielectric;
pub mod fix;
pub mod hit_record;
pub mod hittable;
pub mod hittable_list;
pub mod lambertian;
pub mod material;
pub mod metal;
pub mod point3;
pub mod ray;
pub mod rng;
pub mod sampler;
pub mod scalar_vec3;
pub mod scene;
pub mod simd_vec3;
pub mod sphere;
pub mod vec3;

pub use fix::Fix;

use crate::buffer::Buffer;
use crate::camera::{camera_ray, camera_ray_adv, CameraModel};
use crate::color::{black, black_v3, white, white_v3, Color};
use crate::fix::{clip, div_raw, mul_raw, sqrt_raw, MAX_RAW, SCALE};
use crate::hittable::Hittable;
use crate::hittable_list::{list_hit, HittableList, ListModel};
use crate::material::{scatter_adv, scatter_result};
use crate::ray::{Ray, RayModel};
use crate::sampler::{s_adv, s_peek, unit_of, Sampler, SamplerModel};
use crate::scene::Scene;
use crate::vec3::{
    has_unit, unit_raw, v3_add, v3_div, v3_fma_s, v3_mul, v3_scale, LengthSquared, MulAdd,
    SquareRoot, Unit, V3,
};
use vstd::prelude::*;

verus! {

/// Lower bound of the hit search, in millionths: suppresses
/// self-intersection at the origin of a bounced ray ("shadow acne").
pub const T_MIN_MICROS: i64 = 1000;

/// The sky-blue end of the background gradient, `(0.5, 0.7, 1.0)`.
pub open spec fn sky_v3() -> V3 {
    V3 { x: 500_000, y: 700_000, z: SCALE as int }
}

/// The background: white blended toward sky blue by the vertical
/// component of the unit ray direction.
pub open spec fn background_v3(dir: V3) -> V3 {
    let ud = unit_raw(dir);
    let t = mul_raw(500_000, clip(ud.y + SCALE));
    v3_fma_s(white_v3(), clip(SCALE - t), v3_scale(sky_v3(), t))
}

/// The color a ray gathers, and the sampler state it leaves behind.
///
/// Black once the recursion budget is spent, and for degenerate ray
/// directions that cannot be normalized.  On a hit the material scatters;
/// absorption gives black, a scatter recurses with one less bounce and
/// attenuates the result.  A miss gives the background gradient.
pub open spec fn ray_color_spec(r: RayModel, w: ListModel, depth: int, m: SamplerModel) -> (
    V3,
    SamplerModel,
)
    decreases depth,
{
    if depth <= 0 {
        (black_v3(), m)
    } else if !has_unit(r.dir) {
        (black_v3(), m)
    } else {
        match list_hit(w.objects, r, T_MIN_MICROS as int, MAX_RAW as int) {
            Option::Some(h) => {
                if 0 <= h.material < w.materials.len() {
                    let mat = w.materials[h.material];
                    let m2 = scatter_adv(mat, h, m);
                    match scatter_result(mat, r, h, m) {
                        Option::Some(sc) => {
                            let (rest, m3) = ray_color_spec(sc.0, w, depth - 1, m2);
                            (v3_mul(sc.1, rest), m3)
                        },
                        Option::None => (black_v3(), m2),
                    }
                } else {
                    (black_v3(), m)
                }
            },
            Option::None => (background_v3(r.dir), m),
        }
    }
}

/// Evaluate the light transported back along a ray, bouncing at most
/// `depth` times.
pub fn ray_color(r: &Ray, world: &HittableList, depth: i8, s: &mut Sampler) -> (c: Color)
    ensures
        c@ == ray_color_spec(r@, world@, depth as int, old(s)@).0,
        final(s)@ == ray_color_spec(r@, world@, depth as int, old(s)@).1,
    decreases depth,
{
    if depth <= 0 {
        return black();
    }

    let dir = *r.direction();
    let zero = Fix::zero();
    if !zero.lt(dir.length_squared()) {
        return black();
    }

    let t_min = Fix::from_micros(T_MIN_MICROS);
    let t_max = Fix::from_micros(1_000_000_000_000_000_000);
    if let Some(hit_record) = world.hit(r, t_min, t_max) {
        let midx = hit_record.material();
        if midx < world.material_count() {
            let material = *world.material_at(midx);
            if let Some((scattered, attenuation)) = material.scatter(r, &hit_record, s) {
                let rest = ray_color(&scattered, world, depth - 1, s);
                return attenuation.mul(rest);
            }
            return black();
        }
        return black();
    }

    let unit_direction = dir.unit();
    let one = Fix::one();
    let half = Fix::from_micros(500_000);
    let t = half.mul(unit_direction.y().add(one));
    let sky = Color::new(half, Fix::from_micros(700_000), one);
    white().mul_add(one.sub(t), sky.scale(t))
}

/// With the recursion budget spent, the integrator is black on every
/// ray, every scene and every tape, and draws nothing.
pub proof fn lemma_ray_color_spent_budget(r: RayModel, w: ListModel, depth: int, m: SamplerModel)
    requires
        depth <= 0,
    ensures
        ray_color_spec(r, w, depth, m).0 == black_v3(),
        ray_color_spec(r, w, depth, m).1 == m,
{
}

/// State after `k` jittered samples of pixel `(x, y)`: the accumulated
/// color sum and the sampler.  Each sample draws the two pixel jitters,
/// then the camera's lens sample, then whatever the bounces consume.
pub open spec fn sample_rec(
    cam: CameraModel,
    w: ListModel,
    width: int,
    height: int,
    x: int,
    y: int,
    k: int,
    depth: int,
    m0: SamplerModel,
) -> (V3, SamplerModel)
    decreases k,
{
    if k <= 0 {
        (black_v3(), m0)
    } else {
        let (acc, m) = sample_rec(cam, w, width, height, x, y, k - 1, depth, m0);
        let ju = unit_of(s_peek(m));
        let m1 = s_adv(m);
        let jv = unit_of(s_peek(m1));
        let m2 = s_adv(m1);
        let u = div_raw(clip(x * SCALE + ju), (width - 1) * SCALE);
        let v = div_raw(clip(y * SCALE + jv), (height - 1) * SCALE);
        let ray = camera_ray(cam, u, v, m2);
        let m3 = camera_ray_adv(m2);
        let (c, m4) = ray_color_spec(ray, w, depth, m3);
        (v3_add(acc, c), m4)
    }
}

/// The finished pixel `(x, y)`: the sample average, gamma-corrected by a
/// component-wise square root.
pub open spec fn render_pixel(
    cam: CameraModel,
    w: ListModel,
    width: int,
    height: int,
    x: int,
    y: int,
    spp: int,
    depth: int,
    m0: SamplerModel,
) -> (V3, SamplerModel) {
    let (sum, m) = sample_rec(cam, w, width, height, x, y, spp, depth, m0);
    let avg = v3_div(sum, spp * SCALE);
    (V3 { x: sqrt_raw(avg.x), y: sqrt_raw(avg.y), z: sqrt_raw(avg.z) }, m)
}

/// The first `n` pixels of row `y`, left to right.
pub open spec fn row_rec(
    cam: CameraModel,
    w: ListModel,
    width: int,
    height: int,
    n: int,
    y: int,
    spp: int,
    depth: int,
    m0: SamplerModel,
) -> (Seq<V3>, SamplerModel)
    decreases n,
{
    if n <= 0 {
        (Seq::empty(), m0)
    } else {
        let (pre, m1) = row_rec(cam, w, width, height, n - 1, y, spp, depth, m0);
        let (p, m2) = render_pixel(cam, w, width, height, n - 1, y, spp, depth, m1);
        (pre.push(p), m2)
    }
}

/// The first `k` rows of the image, in lease order (row 0 first).
pub open spec fn rows_rec(
    cam: CameraModel,
    w: ListModel,
    width: int,
    height: int,
    k: int,
    spp: int,
    depth: int,
    m0: SamplerModel,
) -> (Seq<Seq<V3>>, SamplerModel)
    decreases k,
{
    if k <= 0 {
        (Seq::empty(), m0)
    } else {
        let (pre, m1) = rows_rec(cam, w, width, height, k - 1, spp, depth, m0);
        let (row, m2) = row_rec(cam, w, width, height, width, k - 1, spp, depth, m1);
        (pre.push(row), m2)
    }
}

/// Row leasing is exclusive and exhaustive: the rendered grid holds one
/// row per lease, and the row stored at index `i` is exactly the render
/// of row `i` (from the tape as the rows before it left it) — each row
/// is computed and written once, none is skipped and none overwritten.
pub proof fn lemma_rows_written_once(
    cam: CameraModel,
    w: ListModel,
    width: int,
    height: int,
    k: int,
    spp: int,
    depth: int,
    m0: SamplerModel,
)
    requires
        k >= 0,
    ensures
        rows_rec(cam, w, width, height, k, spp, depth, m0).0.len() == k,
        forall|i: int|
            0 <= i < k ==> rows_rec(cam, w, width, height, k, spp, depth, m0).0[i] == row_rec(
                cam,
                w,
                width,
                height,
                width,
                i,
                spp,
                depth,
                rows_rec(cam, w, width, height, i, spp, depth, m0).1,
            ).0,
    decreases k,
{
    if k > 0 {
        lemma_rows_written_once(cam, w, width, height, k - 1, spp, depth, m0);
    }
}

/// The render is deterministic: the same scene, the same parameters and
/// an identically seeded, single-stream tape give the identical image,
/// bit for bit.
pub proof fn lemma_render_deterministic(
    cam1: CameraModel,
    w1: ListModel,
    m1: SamplerModel,
    cam2: CameraModel,
    w2: ListModel,
    m2: SamplerModel,
    width: int,
    height: int,
    spp: int,
    depth: int,
)
    requires
        cam1 == cam2,
        w1 == w2,
        m1 == m2,
    ensures
        rows_rec(cam1, w1, width, height, height, spp, depth, m1) == rows_rec(
            cam2,
            w2,
            width,
            height,
            height,
            spp,
            depth,
            m2,
        ),
{
}

/// Compute one row of the image into `line`: for each pixel, average
/// `samples_per_pixel` jittered camera rays and gamma-correct.
pub fn rtx_line(
    scene: &Scene,
    image_width: usize,
    image_height: usize,
    samples_per_pixel: u16,
    depth: i8,
    line: &mut Vec<Color>,
    height: usize,
    s: &mut Sampler,
)
    requires
        2 <= image_width <= 10_000,
        2 <= image_height <= 10_000,
        samples_per_pixel >= 1,
        height < image_height,
        old(line)@.len() == 0,
    ensures
        final(line)@.len() == image_width,
        (Seq::new(final(line)@.len(), |j: int| final(line)@[j]@), final(s)@) == row_rec(
            scene@.camera,
            scene@.world,
            image_width as int,
            image_height as int,
            image_width as int,
            height as int,
            samples_per_pixel as int,
            depth as int,
            old(s)@,
        ),
{
    let ghost cam = scene@.camera;
    let ghost w = scene@.world;
    let ghost m_row = s@;
    let wm1 = Fix::from_int((image_width - 1) as i32);
    let hm1 = Fix::from_int((image_height - 1) as i32);
    let y = Fix::from_int(height as i32);
    let mut width: usize = 0;
    while width < image_width
        invariant
            2 <= image_width <= 10_000,
            2 <= image_height <= 10_000,
            samples_per_pixel >= 1,
            width <= image_width,
            wm1@ == (image_width - 1) * SCALE,
            hm1@ == (image_height - 1) * SCALE,
            y@ == height * SCALE,
            line@.len() == width,
            (Seq::new(line@.len(), |j: int| line@[j]@), s@) == row_rec(
                cam,
                w,
                image_width as int,
                image_height as int,
                width as int,
                height as int,
                samples_per_pixel as int,
                depth as int,
                m_row,
            ),
            cam == scene@.camera,
            w == scene@.world,
        decreases image_width - width,
    {
        let x = Fix::from_int(width as i32);
        let ghost m_px = s@;
        let mut pixel_color = black();
        let mut sample: u16 = 0;
        while sample < samples_per_pixel
            invariant
                sample <= samples_per_pixel,
                wm1@ == (image_width - 1) * SCALE,
                hm1@ == (image_height - 1) * SCALE,
                2 <= image_width,
                2 <= image_height,
                x@ == width * SCALE,
                y@ == height * SCALE,
                (pixel_color@, s@) == sample_rec(
                    cam,
                    w,
                    image_width as int,
                    image_height as int,
                    width as int,
                    height as int,
                    sample as int,
                    depth as int,
                    m_px,
                ),
                cam == scene@.camera,
                w == scene@.world,
            decreases samples_per_pixel - sample,
        {
            let ju = s.next_unit();
            let u = x.add(ju).div(wm1);
            let jv = s.next_unit();
            let v = y.add(jv).div(hm1);

            let ray = scene.camera().get_ray(u, v, s);
            let sample_pixel_color = ray_color(&ray, scene.world(), depth, s);
            pixel_color = pixel_color.add(sample_pixel_color);
            sample = sample + 1;
        }

        // Average over the samples and gamma-correct for gamma = 2.0.
        let spp = Fix::from_int(samples_per_pixel as i32);
        let calibrated_pixel_color = pixel_color.div(spp).square_root();
        line.push(calibrated_pixel_color);
        proof {
            assert(Seq::new(line@.len(), |j: int| line@[j]@) =~= row_rec(
                cam,
                w,
                image_width as int,
                image_height as int,
                width + 1,
                height as int,
                samples_per_pixel as int,
                depth as int,
                m_row,
            ).0);
        }
        width = width + 1;
    }
}

/// Render the whole image: lease each row in turn, compute it, and return
/// it to the buffer.  The resulting buffer is complete (every row leased
/// and returned exactly once, in index order) and its grid is exactly the
/// model render of the scene from the given tape.
#[verifier::rlimit(60)]
pub fn rtx(
    scene: Scene,
    image_width: usize,
    image_height: usize,
    samples_per_pixel: u16,
    depth: i8,
    s: &mut Sampler,
) -> (buffer: Buffer)
    requires
        2 <= image_width <= 10_000,
        2 <= image_height <= 10_000,
        samples_per_pixel >= 1,
    ensures
        buffer.well_formed(),
        buffer.rows_full(),
        buffer@.width == image_width,
        buffer@.height == image_height,
        buffer@.leased == image_height,
        buffer@.returned == image_height,
        (buffer@.data, final(s)@) == rows_rec(
            scene@.camera,
            scene@.world,
            image_width as int,
            image_height as int,
            image_height as int,
            samples_per_pixel as int,
            depth as int,
            old(s)@,
        ),
{
    let ghost cam = scene@.camera;
    let ghost w = scene@.world;
    let ghost m0 = s@;
    let mut buffer = Buffer::new(image_width, image_height);
    loop
        invariant
            2 <= image_width <= 10_000,
            2 <= image_height <= 10_000,
            samples_per_pixel >= 1,
            buffer.well_formed(),
            buffer@.width == image_width,
            buffer@.height == image_height,
            buffer@.leased == buffer@.returned,
            buffer@.data.len() == image_height,
            cam == scene@.camera,
            w == scene@.world,
            (buffer@.data.take(buffer@.returned), s@) == rows_rec(
                cam,
                w,
                image_width as int,
                image_height as int,
                buffer@.returned,
                samples_per_pixel as int,
                depth as int,
                m0,
            ),
            forall|i: int|
                0 <= i < buffer@.returned ==> #[trigger] buffer@.data[i].len() == image_width,
        ensures
            buffer.well_formed(),
            buffer@.width == image_width,
            buffer@.height == image_height,
            buffer@.leased == image_height,
            buffer@.returned == image_height,
            buffer@.data.len() == image_height,
            (buffer@.data.take(buffer@.returned), s@) == rows_rec(
                cam,
                w,
                image_width as int,
                image_height as int,
                buffer@.returned,
                samples_per_pixel as int,
                depth as int,
                m0,
            ),
            forall|i: int|
                0 <= i < buffer@.returned ==> #[trigger] buffer@.data[i].len() == image_width,
            cam == scene@.camera,
            w == scene@.world,
        decreases image_height - buffer@.leased,
    {
        let next = buffer.get_line();
        if let Some((height, mut line)) = next {
            rtx_line(
                &scene,
                image_width,
                image_height,
                samples_per_pixel,
                depth,
                &mut line,
                height,
                s,
            );
            buffer.push_line(height, line);
            proof {
                assert(buffer@.data.take(buffer@.returned) =~= rows_rec(
                    cam,
                    w,
                    image_width as int,
                    image_height as int,
                    buffer@.returned,
                    samples_per_pixel as int,
                    depth as int,
                    m0,
                ).0);
            }
        } else {
            break;
        }
    }
    proof {
        assert(buffer@.data =~= buffer@.data.take(buffer@.returned));
    }
    buffer
}

} // verus!
