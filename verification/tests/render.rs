use raytracer::camera::Camera;
use raytracer::fixed::clamp;
use raytracer::hittable_list::HitTableList;
use raytracer::lambertian::Lambertian;
use raytracer::materials::MaterialType;
use raytracer::ppm::{Image, Pixel};
use raytracer::sched::{render, RowCounter};
use raytracer::sphere::Sphere;
use raytracer::vec3::Vec3;

const S: i64 = 1_000_000;

#[test]
fn row_counter_claims_each_row_once_test() {
    let height: u32 = 5;
    let mut counter = RowCounter::new(height);
    let mut seen = [0u32; 5];

    for k in 0..height {
        let row = counter.claim().expect("a row is owed while the counter is non-negative");
        assert_eq!(row, height - 1 - k);
        seen[row as usize] += 1;
    }
    assert!(counter.claim().is_none());
    assert!(counter.claim().is_none());
    for count in seen.iter() {
        assert_eq!(*count, 1);
    }
}

#[test]
fn clamp_test() {
    assert_eq!(clamp(5, 0, 10), 5);
    assert_eq!(clamp(-5, 0, 10), 0);
    assert_eq!(clamp(15, 0, 10), 10);
}

#[test]
fn image_new_is_zeroed_test() {
    let img = Image::new(3, 4);
    assert_eq!(img.height(), 3);
    assert_eq!(img.width(), 4);
    for y in 0..3 {
        for x in 0..4 {
            assert_eq!(img.get_pixel(y, x), Pixel::zeros());
        }
    }
}

#[test]
fn image_set_pixel_test() {
    let mut img = Image::new(2, 2);
    img.set_pixel(1, 0, Pixel::Rgb([7, 8, 9]));
    assert_eq!(img.get_pixel(1, 0), Pixel::Rgb([7, 8, 9]));
    assert_eq!(img.get_pixel(0, 0), Pixel::zeros());
}

#[test]
fn set_color_tone_maps_exactly_test() {
    let mut img = Image::new(1, 2);
    // a full-white sample sum quantizes to 255; a quarter-intensity channel
    // has square root one half, so it lands on byte 128
    img.set_color(0, 0, &Vec3::new(S, S, S), 1);
    assert_eq!(img.get_pixel(0, 0), Pixel::Rgb([255, 255, 255]));

    img.set_color(0, 1, &Vec3::new(250_000, 0, S), 1);
    assert_eq!(img.get_pixel(0, 1), Pixel::Rgb([128, 0, 255]));
}

#[test]
fn set_color_averages_samples_test() {
    let mut img = Image::new(1, 1);
    // four samples summing to full white average to one quarter: byte 128
    img.set_color(0, 0, &Vec3::new(S, S, S), 4);
    assert_eq!(img.get_pixel(0, 0), Pixel::Rgb([128, 128, 128]));
}

fn pinhole_camera() -> Camera {
    Camera::new(
        Vec3::new(0, 0, 0),
        Vec3::new(0, 0, -S),
        Vec3::new(0, S, 0),
        S,  // ninety-degree vertical field of view
        S,  // square viewport
        0,  // pinhole: no aperture
        S,  // focus plane at unit distance
    )
}

#[test]
fn camera_pinhole_center_ray_test() {
    let cam = pinhole_camera();
    let r = cam.get_ray(500_000, 500_000);

    assert_eq!(r.origin(), Vec3::new(0, 0, 0));
    // the center of the viewport lies straight down the gaze axis
    assert_eq!(r.direction(), Vec3::new(0, 0, -S));
}

#[test]
fn render_single_sphere_scene_test() {
    // a diffuse sphere of radius one half at unit distance: at one sample per
    // pixel and depth one the center pixel is a scattered-then-exhausted
    // path, exactly black, while a corner pixel sees only sky
    let mut world: HitTableList<Sphere> = HitTableList::new();
    world.add(Sphere::new(
        0,
        0,
        -S,
        500_000,
        MaterialType::Lambertian(Lambertian::new(500_000, 500_000, 500_000)),
    ));
    let cam = pinhole_camera();
    let img = render(&cam, &world, 11, 11, 1, 1);

    assert_eq!(img.height(), 11);
    assert_eq!(img.width(), 11);
    assert_eq!(img.get_pixel(5, 5), Pixel::Rgb([0, 0, 0]));
    let Pixel::Rgb(corner) = img.get_pixel(0, 0);
    assert!(corner[0] > 0 && corner[1] > 0 && corner[2] > 0);

    // the exact corner ray is deterministic for a pinhole camera, and its
    // radiance is exactly the sky gradient for its direction
    let corner_ray = cam.get_ray(0, S);
    assert_eq!(corner_ray.direction(), Vec3::new(-S, S, -S));
    let unit = corner_ray.direction().unit_vector();
    let t = raytracer::fixed::mul_fixed(500_000, unit.y() + S);
    let expected = Vec3::new(S, S, S)
        .scale(S - t)
        .add(Vec3::new(500_000, 700_000, S).scale(t));
    assert_eq!(raytracer::tracer::ray_color(corner_ray, &world, 5), expected);
}
