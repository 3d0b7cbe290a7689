//! Intersection, materials and the integrator on concrete scenes.

use rust_ray_tracer::color::{black, white, Color};
use rust_ray_tracer::dielectric::Dielectric;
use rust_ray_tracer::fix::Fix;
use rust_ray_tracer::hit_record::HitRecord;
use rust_ray_tracer::hittable::Hittable;
use rust_ray_tracer::hittable_list::HittableList;
use rust_ray_tracer::lambertian::Lambertian;
use rust_ray_tracer::material::Material;
use rust_ray_tracer::metal::Metal;
use rust_ray_tracer::point3::Point3;
use rust_ray_tracer::ray::Ray;
use rust_ray_tracer::rng::{fill_sampler, rng_with_seed};
use rust_ray_tracer::sampler::Sampler;
use rust_ray_tracer::sphere::Sphere;
use rust_ray_tracer::vec3::Vec3;
use rust_ray_tracer::ray_color;

fn fi(n: i32) -> Fix {
    Fix::from_int(n)
}

fn fm(micros: i64) -> Fix {
    Fix::from_micros(micros)
}

fn empty_sampler() -> Sampler {
    Sampler::new(Vec::new())
}

#[test]
fn ray_through_center_hits_near_surface() {
    // A ray from the origin along +x toward a unit sphere centered two
    // units away: the hit is at t = 1, the distance to the near surface.
    let sphere = Sphere::new(Point3::new(fi(2), fi(0), fi(0)), fi(1), 0);
    let ray = Ray::new(Point3::new(fi(0), fi(0), fi(0)), Vec3::new(fi(1), fi(0), fi(0)));
    let hit = sphere.hit(&ray, fm(1000), fm(1_000_000_000_000_000_000)).unwrap();
    assert_eq!(hit.t(), fi(1));
    assert!(hit.front_face());
    assert_eq!(*hit.normal(), Vec3::new(fi(-1), fi(0), fi(0)));
    assert_eq!(hit.p(), Point3::new(fi(1), fi(0), fi(0)));
}

#[test]
fn ray_missing_the_sphere_reports_no_hit() {
    let sphere = Sphere::new(Point3::new(fi(2), fi(0), fi(0)), fi(1), 0);
    let away = Ray::new(Point3::new(fi(0), fi(0), fi(0)), Vec3::new(fi(0), fi(1), fi(0)));
    assert!(sphere.hit(&away, fm(1000), fm(1_000_000_000_000_000_000)).is_none());
}

#[test]
fn negative_radius_gives_same_t_and_flipped_face() {
    let solid = Sphere::new(Point3::new(fi(2), fi(0), fi(0)), fm(500_000), 0);
    let hollow = Sphere::new(Point3::new(fi(2), fi(0), fi(0)), fm(-500_000), 0);
    let ray = Ray::new(Point3::new(fi(0), fi(0), fi(0)), Vec3::new(fi(1), fi(0), fi(0)));
    let t_max = fm(1_000_000_000_000_000_000);
    let h1 = solid.hit(&ray, fm(1000), t_max).unwrap();
    let h2 = hollow.hit(&ray, fm(1000), t_max).unwrap();
    assert_eq!(h1.t(), h2.t());
    assert_eq!(h1.t(), fm(1_500_000));
    assert_eq!(h1.p(), h2.p());
    assert!(h1.front_face());
    assert!(!h2.front_face());
    assert_eq!(*h1.normal(), *h2.normal());
}

#[test]
fn closest_of_two_spheres_wins() {
    let mut world = HittableList::new();
    let m = world.add_material(Material::Lambertian(Lambertian::new(white())));
    world.add(Sphere::new(Point3::new(fi(5), fi(0), fi(0)), fi(1), m));
    world.add(Sphere::new(Point3::new(fi(2), fi(0), fi(0)), fi(1), m));
    let ray = Ray::new(Point3::new(fi(0), fi(0), fi(0)), Vec3::new(fi(1), fi(0), fi(0)));
    let hit = world.hit(&ray, fm(1000), fm(1_000_000_000_000_000_000)).unwrap();
    assert_eq!(hit.t(), fi(1));
}

#[test]
fn ray_color_with_spent_budget_is_black() {
    let mut world = HittableList::new();
    let m = world.add_material(Material::Lambertian(Lambertian::new(white())));
    world.add(Sphere::new(Point3::new(fi(2), fi(0), fi(0)), fi(1), m));
    let ray = Ray::new(Point3::new(fi(0), fi(0), fi(0)), Vec3::new(fi(1), fi(0), fi(0)));
    let mut s = empty_sampler();
    let c = ray_color(&ray, &world, 0, &mut s);
    assert_eq!(c, black());
    let c2 = ray_color(&ray, &world, -3, &mut s);
    assert_eq!(c2, black());
}

#[test]
fn escaping_ray_gets_the_background_gradient() {
    let world = HittableList::new();
    // Straight up: the gradient reaches pure sky blue.
    let up = Ray::new(Point3::new(fi(0), fi(0), fi(0)), Vec3::new(fi(0), fi(1), fi(0)));
    let mut s = empty_sampler();
    let c = ray_color(&up, &world, 5, &mut s);
    assert_eq!(c, Color::new(fm(500_000), fm(700_000), fi(1)));
}

#[test]
fn metal_without_fuzz_reflects_off_the_floor() {
    // Incoming (1, -1, 0) onto the normal (0, 1, 0): the scattered ray
    // leaves the surface (its y points up) and the attenuation is the
    // albedo, exactly.
    let albedo = Color::new(fm(800_000), fm(600_000), fm(200_000));
    let metal = Metal::new(albedo, fi(0));
    let r_in = Ray::new(Point3::new(fi(-1), fi(1), fi(0)), Vec3::new(fi(1), fi(-1), fi(0)));
    let rec = HitRecord::new(
        Point3::new(fi(0), fi(0), fi(0)),
        Vec3::new(fi(0), fi(1), fi(0)),
        0,
        fi(1),
        &r_in,
    );
    let mut s = empty_sampler();
    let (scattered, attenuation) = metal.scatter(&r_in, &rec, &mut s).unwrap();
    assert!(scattered.direction().y().to_micros() > 0);
    assert_eq!(attenuation, albedo);
}

#[test]
fn grazing_metal_scatter_is_absorbed() {
    let metal = Metal::new(white(), fi(0));
    let r_in = Ray::new(Point3::new(fi(-1), fi(0), fi(0)), Vec3::new(fi(1), fi(0), fi(0)));
    let rec = HitRecord::new(
        Point3::new(fi(0), fi(0), fi(0)),
        Vec3::new(fi(0), fi(1), fi(0)),
        0,
        fi(1),
        &r_in,
    );
    let mut s = empty_sampler();
    assert!(metal.scatter(&r_in, &rec, &mut s).is_none());
}

#[test]
fn lambertian_always_scatters_with_its_albedo() {
    let albedo = Color::new(fm(100_000), fm(200_000), fm(500_000));
    let matte = Lambertian::new(albedo);
    let r_in = Ray::new(Point3::new(fi(0), fi(1), fi(0)), Vec3::new(fi(0), fi(-1), fi(0)));
    let rec = HitRecord::new(
        Point3::new(fi(0), fi(0), fi(0)),
        Vec3::new(fi(0), fi(1), fi(0)),
        0,
        fi(1),
        &r_in,
    );
    // With an empty tape the hemisphere sample degenerates to zero and
    // the scatter direction falls back to the surface normal.
    let mut s = empty_sampler();
    let (scattered, attenuation) = matte.scatter(&r_in, &rec, &mut s).unwrap();
    assert_eq!(attenuation, albedo);
    assert_eq!(*scattered.direction(), Vec3::new(fi(0), fi(1), fi(0)));
}

#[test]
fn unit_index_dielectric_passes_straight_through() {
    // Head-on onto glass with index 1: never reflects, never tints.
    let glass = Dielectric::new(fi(1));
    let r_in = Ray::new(Point3::new(fi(0), fi(0), fi(1)), Vec3::new(fi(0), fi(0), fi(-1)));
    let rec = HitRecord::new(
        Point3::new(fi(0), fi(0), fi(0)),
        Vec3::new(fi(0), fi(0), fi(1)),
        0,
        fi(1),
        &r_in,
    );
    let mut rng = rng_with_seed(99);
    for _ in 0..20 {
        let mut s = fill_sampler(&mut rng, 8);
        let (scattered, attenuation) = glass.scatter(&r_in, &rec, &mut s).unwrap();
        assert_eq!(attenuation, white());
        assert_eq!(*scattered.direction(), Vec3::new(fi(0), fi(0), fi(-1)));
    }
}

#[test]
fn dielectric_attenuation_is_always_white() {
    let glass = Dielectric::new(fm(1_500_000));
    let r_in = Ray::new(Point3::new(fi(0), fi(2), fi(0)), Vec3::new(fi(1), fi(-2), fi(0)));
    let rec = HitRecord::new(
        Point3::new(fi(1), fi(0), fi(0)),
        Vec3::new(fi(0), fi(1), fi(0)),
        0,
        fi(2),
        &r_in,
    );
    let mut rng = rng_with_seed(5);
    for _ in 0..20 {
        let mut s = fill_sampler(&mut rng, 8);
        let (_, attenuation) = glass.scatter(&r_in, &rec, &mut s).unwrap();
        assert_eq!(attenuation, white());
    }
}

#[test]
fn schlick_coin_decides_reflection_exactly() {
    // Glass with index 1.5, struck head-on: the reflectance works out to
    // exactly 0.04 in the fixed-point model, so a coin below 40000
    // millionths reflects and a coin at or above it refracts.
    let glass = Dielectric::new(fm(1_500_000));
    let r_in = Ray::new(Point3::new(fi(0), fi(0), fi(1)), Vec3::new(fi(0), fi(0), fi(-1)));
    let rec = HitRecord::new(
        Point3::new(fi(0), fi(0), fi(0)),
        Vec3::new(fi(0), fi(0), fi(1)),
        0,
        fi(1),
        &r_in,
    );

    let mut reflecting = Sampler::new(vec![39_999]);
    let (scattered, _) = glass.scatter(&r_in, &rec, &mut reflecting).unwrap();
    assert_eq!(*scattered.direction(), Vec3::new(fi(0), fi(0), fi(1)));

    let mut refracting = Sampler::new(vec![40_000]);
    let (scattered, _) = glass.scatter(&r_in, &rec, &mut refracting).unwrap();
    assert_eq!(*scattered.direction(), Vec3::new(fi(0), fi(0), fi(-1)));
}
