//! The full render pipeline: sampler, camera and the row scheduler.

use rust_ray_tracer::camera::Camera;
use rust_ray_tracer::color::Color;
use rust_ray_tracer::fix::Fix;
use rust_ray_tracer::hittable_list::HittableList;
use rust_ray_tracer::lambertian::Lambertian;
use rust_ray_tracer::material::Material;
use rust_ray_tracer::metal::Metal;
use rust_ray_tracer::dielectric::Dielectric;
use rust_ray_tracer::point3::Point3;
use rust_ray_tracer::rng::{fill_sampler, rng_with_seed};
use rust_ray_tracer::rtx;
use rust_ray_tracer::scene::Scene;
use rust_ray_tracer::sphere::Sphere;
use rust_ray_tracer::vec3::Vec3;

fn fi(n: i32) -> Fix {
    Fix::from_int(n)
}

fn fm(micros: i64) -> Fix {
    Fix::from_micros(micros)
}

fn three_spheres() -> Scene {
    let look_from = Point3::new(fi(3), fi(3), fi(2));
    let look_at = Point3::new(fi(0), fi(0), fi(-1));
    let up = Vec3::new(fi(0), fi(1), fi(0));
    // tan of half a 20 degree vertical field of view.
    let tan_half_fov = fm(176_327);
    let aspect_ratio = fm(1_777_778);
    let aperture = fi(2);
    let focus_distance = fm(5_196_152);
    let camera = Camera::new(
        look_from,
        look_at,
        up,
        tan_half_fov,
        aspect_ratio,
        aperture,
        focus_distance,
    );

    let mut world = HittableList::new();
    let ground = world.add_material(Material::Lambertian(Lambertian::new(Color::new(
        fm(800_000),
        fm(800_000),
        fm(0),
    ))));
    let center = world.add_material(Material::Lambertian(Lambertian::new(Color::new(
        fm(100_000),
        fm(200_000),
        fm(500_000),
    ))));
    let glass = world.add_material(Material::Dielectric(Dielectric::new(fm(1_500_000))));
    let metal = world.add_material(Material::Metal(Metal::new(
        Color::new(fm(800_000), fm(600_000), fm(200_000)),
        fi(0),
    )));

    world.add(Sphere::new(Point3::new(fi(0), fm(-100_500_000), fi(-1)), fi(100), ground));
    world.add(Sphere::new(Point3::new(fi(0), fi(0), fi(-1)), fm(500_000), center));
    world.add(Sphere::new(Point3::new(fi(-1), fi(0), fi(-1)), fm(500_000), glass));
    world.add(Sphere::new(Point3::new(fi(-1), fi(0), fi(-1)), fm(-450_000), glass));
    world.add(Sphere::new(Point3::new(fi(1), fi(0), fi(-1)), fm(500_000), metal));

    Scene::new(camera, world)
}

#[test]
fn sampler_draws_stay_in_the_unit_interval() {
    let mut rng = rng_with_seed(11);
    let mut s = fill_sampler(&mut rng, 128);
    assert_eq!(s.remaining(), 128);
    for _ in 0..128 {
        let u = s.next_unit().to_micros();
        assert!(0 <= u && u < 1_000_000, "{}", u);
    }
    assert_eq!(s.remaining(), 0);
    // An exhausted tape keeps answering, with zeros.
    assert_eq!(s.next_unit(), Fix::zero());

    // The raw tape values themselves stay below one million: the
    // generator draws are folded into range before they are stored.
    let mut s2 = fill_sampler(&mut rng, 128);
    for _ in 0..128 {
        assert!(s2.next_u64() < 1_000_000);
    }
}

#[test]
fn differently_seeded_tapes_differ() {
    let mut rng1 = rng_with_seed(1);
    let mut rng2 = rng_with_seed(2);
    let mut s1 = fill_sampler(&mut rng1, 64);
    let mut s2 = fill_sampler(&mut rng2, 64);
    let mut same = true;
    for _ in 0..64 {
        if s1.next_u64() != s2.next_u64() {
            same = false;
        }
    }
    assert!(!same);
}

#[test]
fn render_completes_every_row() {
    let scene = three_spheres();
    let mut rng = rng_with_seed(1337);
    let mut s = fill_sampler(&mut rng, 40_000);
    let buffer = rtx(scene, 4, 3, 1, 3, &mut s);
    assert_eq!(buffer.width(), 4);
    assert_eq!(buffer.height(), 3);
    assert_eq!(buffer.leased_lines(), 3);
    assert_eq!(buffer.returned_lines(), 3);
    assert!(buffer.complete());
    let bytes = buffer.encode();
    // Header plus one line per pixel.
    let text = String::from_utf8(bytes).unwrap();
    assert_eq!(text.lines().count(), 3 + 4 * 3);
    assert!(text.starts_with("P3\n4 3\n256\n"));
}

#[test]
fn identically_seeded_renders_are_bit_identical() {
    let mut rng1 = rng_with_seed(2024);
    let mut s1 = fill_sampler(&mut rng1, 40_000);
    let buffer1 = rtx(three_spheres(), 4, 3, 1, 3, &mut s1);

    let mut rng2 = rng_with_seed(2024);
    let mut s2 = fill_sampler(&mut rng2, 40_000);
    let buffer2 = rtx(three_spheres(), 4, 3, 1, 3, &mut s2);

    assert_eq!(buffer1.encode(), buffer2.encode());
}

#[test]
fn camera_rays_aim_at_the_image_plane() {
    let scene = three_spheres();
    let mut rng = rng_with_seed(3);
    let mut s = fill_sampler(&mut rng, 64);
    let ray = scene.camera().get_ray(fm(500_000), fm(500_000), &mut s);
    // The center ray points from the eye toward the focus target.
    assert!(ray.direction().x().to_micros() < 0);
    assert!(ray.direction().y().to_micros() < 0);
    assert!(ray.direction().z().to_micros() < 0);
}

#[test]
fn empty_scene_render_is_sky_colored() {
    // A camera staring at nothing: every sample escapes into the sky,
    // so every channel lands between the gradient's white and blue ends.
    let look_from = Point3::new(fi(0), fi(0), fi(0));
    let look_at = Point3::new(fi(0), fi(0), fi(-1));
    let up = Vec3::new(fi(0), fi(1), fi(0));
    let camera = Camera::new(look_from, look_at, up, fi(1), fi(1), fi(0), fi(1));
    let world = HittableList::new();
    let scene = Scene::new(camera, world);
    let mut s = rust_ray_tracer::sampler::Sampler::new(Vec::new());
    let buffer = rtx(scene, 2, 2, 1, 2, &mut s);
    assert!(buffer.complete());
    let text = String::from_utf8(buffer.encode()).unwrap();
    let mut lines = text.lines();
    assert_eq!(lines.next(), Some("P3"));
    assert_eq!(lines.next(), Some("2 2"));
    assert_eq!(lines.next(), Some("256"));
    for line in lines {
        // Sky gradient channels: gamma-corrected values stay bright.
        for channel in line.split(' ') {
            let value: u32 = channel.parse().unwrap();
            assert!(value >= 128, "{}", line);
            assert!(value <= 255, "{}", line);
        }
    }
}
