use raytracer::dielectric::Dielectric;
use raytracer::hittable_list::HitTableList;
use raytracer::lambertian::Lambertian;
use raytracer::materials::MaterialType;
use raytracer::metal::Metal;
use raytracer::ray::Ray;
use raytracer::sphere::Sphere;
use raytracer::tracer::{ray_color, HitRecord, HitTable, Material};
use raytracer::vec3::Vec3;

const S: i64 = 1_000_000;

fn diffuse_gray() -> MaterialType {
    MaterialType::Lambertian(Lambertian::new(500_000, 500_000, 500_000))
}

fn zero_record() -> HitRecord {
    HitRecord {
        p: Vec3::new(0, 0, 0),
        normal: Vec3::new(0, 0, 0),
        material: MaterialType::Unset,
        t: 0,
        front_face: false,
    }
}

#[test]
fn sphere_miss_on_negative_discriminant_test() {
    // the ray passes two units above a unit sphere: no real root
    let sphere = Sphere::new(0, 0, -2 * S, S, diffuse_gray());
    let ray = Ray::new(Vec3::new(0, 2 * S, 0), Vec3::new(0, 0, -S));
    let mut rec = zero_record();

    assert!(!sphere.hit(&ray, 0, 100 * S, &mut rec));
    assert_eq!(rec, zero_record());
}

#[test]
fn sphere_tangent_hit_test() {
    // the ray grazes the unit sphere: the discriminant is exactly zero and
    // the unique root is the tangent parameter
    let sphere = Sphere::new(0, 0, -2 * S, S, diffuse_gray());
    let ray = Ray::new(Vec3::new(0, S, 0), Vec3::new(0, 0, -S));
    let mut rec = zero_record();

    assert!(sphere.hit(&ray, 0, 100 * S, &mut rec));
    assert_eq!(rec.t, 2 * S);
}

#[test]
fn sphere_tangent_out_of_range_test() {
    // the same tangent root does not count when the range excludes it
    let sphere = Sphere::new(0, 0, -2 * S, S, diffuse_gray());
    let ray = Ray::new(Vec3::new(0, S, 0), Vec3::new(0, 0, -S));
    let mut rec = zero_record();

    assert!(!sphere.hit(&ray, 0, S, &mut rec));
}

#[test]
fn sphere_front_hit_normal_test() {
    let sphere = Sphere::new(0, 0, -2 * S, S, diffuse_gray());
    let ray = Ray::new(Vec3::new(0, 0, 0), Vec3::new(0, 0, -S));
    let mut rec = zero_record();

    assert!(sphere.hit(&ray, 0, 100 * S, &mut rec));
    assert_eq!(rec.t, S);
    assert_eq!(rec.p, Vec3::new(0, 0, -S));
    assert_eq!(rec.normal, Vec3::new(0, 0, S));
    assert!(rec.front_face);
    // the stored normal never points into the incoming ray
    assert!(Vec3::dot(rec.normal, ray.direction()) <= 0);
}

#[test]
fn list_nearest_hit_test() {
    // two spheres on the same ray: the nearer one wins
    let mut world: HitTableList<Sphere> = HitTableList::new();
    world.add(Sphere::new(0, 0, -6 * S, S, diffuse_gray()));
    world.add(Sphere::new(0, 0, -2 * S, S, diffuse_gray()));
    let ray = Ray::new(Vec3::new(0, 0, 0), Vec3::new(0, 0, -S));
    let mut rec = zero_record();

    assert!(world.hit(&ray, 0, 100 * S, &mut rec));
    assert_eq!(rec.t, S);
}

#[test]
fn list_first_object_wins_ties_test() {
    // two coincident spheres: both front hits share the same parameter, and
    // the record keeps the first object's material
    let mut world: HitTableList<Sphere> = HitTableList::new();
    world.add(Sphere::new(0, 0, -2 * S, S, MaterialType::Metal(Metal::new(S, S, S, 0))));
    world.add(Sphere::new(0, 0, -2 * S, S, diffuse_gray()));
    let ray = Ray::new(Vec3::new(0, 0, 0), Vec3::new(0, 0, -S));
    let mut rec = zero_record();

    assert!(world.hit(&ray, 0, 100 * S, &mut rec));
    assert_eq!(rec.t, S);
    assert!(matches!(rec.material, MaterialType::Metal(_)));
}

#[test]
fn list_empty_misses_test() {
    let world: HitTableList<Sphere> = HitTableList::new();
    let ray = Ray::new(Vec3::new(0, 0, 0), Vec3::new(0, 0, -S));
    let mut rec = zero_record();

    assert!(!world.hit(&ray, 0, 100 * S, &mut rec));
}

#[test]
fn lambertian_always_scatters_test() {
    let material = Lambertian::new(600_000, 500_000, 400_000);
    let rec = HitRecord {
        p: Vec3::new(S, 2 * S, 3 * S),
        normal: Vec3::new(0, S, 0),
        material: MaterialType::Lambertian(material),
        t: S,
        front_face: true,
    };
    let ray = Ray::new(Vec3::new(0, 0, 0), Vec3::new(0, -S, 0));
    let mut attenuation = Vec3::new(0, 0, 0);
    let mut scattered = Ray::new(Vec3::new(0, 0, 0), Vec3::new(0, 0, 0));

    for _ in 0..100 {
        assert!(material.scatter(&ray, &rec, &mut attenuation, &mut scattered));
        assert_eq!(scattered.origin(), rec.p);
        assert_eq!(attenuation, Vec3::new(600_000, 500_000, 400_000));
    }
}

#[test]
fn metal_absorbs_exactly_when_scattered_inward_test() {
    // fuzz of one with grazing incidence: absorption must be possible, and
    // the returned flag always matches the sign of the scattered direction
    let material = Metal::new(700_000, 600_000, 500_000, S);
    let normal = Vec3::new(0, S, 0);
    let rec = HitRecord {
        p: Vec3::new(0, 0, 0),
        normal,
        material: MaterialType::Metal(material),
        t: S,
        front_face: true,
    };
    // nearly grazing: the reflected ray points barely above the surface
    let ray = Ray::new(Vec3::new(-10 * S, 100_000, 0), Vec3::new(10 * S, -100_000, 0));
    let mut attenuation = Vec3::new(0, 0, 0);
    let mut scattered = Ray::new(Vec3::new(0, 0, 0), Vec3::new(0, 0, 0));

    let mut absorbed = 0;
    let mut survived = 0;
    for _ in 0..200 {
        let b = material.scatter(&ray, &rec, &mut attenuation, &mut scattered);
        assert_eq!(b, Vec3::dot(scattered.direction(), normal) > 0);
        if b {
            survived += 1;
        } else {
            absorbed += 1;
        }
    }
    assert!(absorbed > 0);
    assert!(survived > 0);
}

#[test]
fn metal_new_clamps_fuzz_test() {
    assert_eq!(Metal::new(S, S, S, 3 * S).fuzz, S);
    assert_eq!(Metal::new(S, S, S, -S).fuzz, 0);
    assert_eq!(Metal::new(S, S, S, 250_000).fuzz, 250_000);
}

#[test]
fn dielectric_straight_through_test() {
    // an index of exactly one never bends the ray: the scattered direction
    // is the incident unit direction itself
    let material = Dielectric::new(S);
    let rec = HitRecord {
        p: Vec3::new(0, 0, 0),
        normal: Vec3::new(0, S, 0),
        material: MaterialType::Dielectric(material),
        t: S,
        front_face: true,
    };
    let ray = Ray::new(Vec3::new(0, 3 * S, 0), Vec3::new(0, -2 * S, 0));
    let mut attenuation = Vec3::new(0, 0, 0);
    let mut scattered = Ray::new(Vec3::new(0, 0, 0), Vec3::new(0, 0, 0));

    for _ in 0..100 {
        assert!(material.scatter(&ray, &rec, &mut attenuation, &mut scattered));
        assert_eq!(attenuation, Vec3::new(S, S, S));
        assert_eq!(scattered.direction(), Vec3::new(0, -S, 0));
    }
}

#[test]
fn trace_depth_zero_is_black_test() {
    let mut world: HitTableList<Sphere> = HitTableList::new();
    world.add(Sphere::new(0, 0, -2 * S, S, diffuse_gray()));
    let ray = Ray::new(Vec3::new(0, 0, 0), Vec3::new(0, 0, -S));

    assert_eq!(ray_color(ray, &world, 0), Vec3::new(0, 0, 0));
}

#[test]
fn trace_empty_scene_sky_endpoints_test() {
    let world: HitTableList<Sphere> = HitTableList::new();

    let down = Ray::new(Vec3::new(0, 0, 0), Vec3::new(0, -S, 0));
    assert_eq!(ray_color(down, &world, 10), Vec3::new(S, S, S));

    let up = Ray::new(Vec3::new(0, 0, 0), Vec3::new(0, S, 0));
    assert_eq!(ray_color(up, &world, 10), Vec3::new(500_000, 700_000, S));
}

#[test]
fn trace_absorbed_is_black_test() {
    // a hit on a surface with no material terminates the path with black
    let mut world: HitTableList<Sphere> = HitTableList::new();
    world.add(Sphere::new(0, 0, -2 * S, S, MaterialType::Unset));
    let ray = Ray::new(Vec3::new(0, 0, 0), Vec3::new(0, 0, -S));

    assert_eq!(ray_color(ray, &world, 10), Vec3::new(0, 0, 0));
}

#[test]
fn set_face_normal_orients_against_ray_test() {
    let ray = Ray::new(Vec3::new(0, 0, 0), Vec3::new(0, 0, -S));
    let mut rec = zero_record();

    rec.set_face_normal(&ray, Vec3::new(0, 0, S));
    assert!(rec.front_face);
    assert_eq!(rec.normal, Vec3::new(0, 0, S));

    rec.set_face_normal(&ray, Vec3::new(0, 0, -S));
    assert!(!rec.front_face);
    assert_eq!(rec.normal, Vec3::new(0, 0, S));
    assert!(Vec3::dot(rec.normal, ray.direction()) <= 0);
}

#[test]
fn material_type_default_test() {
    assert!(matches!(MaterialType::default(), MaterialType::Unset));
}

#[test]
fn hittable_list_clear_test() {
    let mut world: HitTableList<Sphere> = HitTableList::new();
    world.add(Sphere::new(0, 0, -2 * S, S, diffuse_gray()));
    world.clear();
    let ray = Ray::new(Vec3::new(0, 0, 0), Vec3::new(0, 0, -S));
    let mut rec = zero_record();

    assert!(!world.hit(&ray, 0, 100 * S, &mut rec));
}
