use raytracer::vec3::Vec3;
use raytracer::fixed::sqrt_fixed;
use raytracer::rng::random_range_scalar;

const S: i64 = 1_000_000;

#[test]
fn random_unit_vector_test() {
    // unit length up to the fixed-point resolution: the squared length lands
    // within the proven truncation envelope around one
    let v1 = Vec3::random_unit_vector();

    assert!(v1.length_squared() > S - 18);
    assert!(v1.length_squared() < S + 400);
}

#[test]
fn add_test() {
    let v1 = Vec3::new(S, 2 * S, 3 * S);
    let v2 = Vec3::new(500_000, -1_500_000, 3_500_000);
    assert_eq!(v1.add(v2), Vec3::new(1_500_000, 500_000, 6_500_000));
}

#[test]
fn sub_test() {
    let v1 = Vec3::new(S, 2 * S, 3 * S);
    let v2 = Vec3::new(2_400_000, 1_300_000, 3_000_000);

    assert_eq!(v1.sub(v2), Vec3::new(-1_400_000, 700_000, 0));
}

#[test]
fn mul_test1() {
    let v1 = Vec3::new(S, 2 * S, -3 * S);
    let v2 = Vec3::new(4 * S, 5 * S, -6 * S);

    assert_eq!(v1.mul(v2), Vec3::new(4 * S, 10 * S, 18 * S));
}

#[test]
fn mul_test2() {
    let v1 = Vec3::new(S, 2 * S, -3 * S);

    assert_eq!(v1.scale(3 * S), Vec3::new(3 * S, 6 * S, -9 * S));
}

#[test]
fn mul_test3() {
    let v1 = Vec3::new(S, 2 * S, -3 * S);

    assert_eq!(v1.scale(3 * S), Vec3::new(3 * S, 6 * S, -9 * S));
}

#[test]
fn div_test() {
    let v1 = Vec3::new(S, 2 * S, -3 * S);

    assert_eq!(v1.div(2 * S), Vec3::new(500_000, S, -1_500_000));
}

#[test]
fn add_assign_test() {
    let mut v1 = Vec3::new(S, 2 * S, 3 * S);
    let v2 = Vec3::new(500_000, -3 * S, 10 * S);
    v1.add_assign(v2);

    assert_eq!(v1, Vec3::new(1_500_000, -S, 13 * S));
}

#[test]
fn mul_assign_test() {
    let mut v1 = Vec3::new(S, 2 * S, -3 * S);
    v1.mul_assign(2 * S);

    assert_eq!(v1, Vec3::new(2 * S, 4 * S, -6 * S));
}

#[test]
fn div_assign_test() {
    let mut v1 = Vec3::new(S, 2 * S, -3 * S);
    v1.div_assign(2 * S);

    assert_eq!(v1, Vec3::new(500_000, S, -1_500_000));
}

#[test]
fn neg_test() {
    let v1 = Vec3::new(S, -2 * S, 3_500_000);

    assert_eq!(v1.neg(), Vec3::new(-S, 2 * S, -3_500_000));
}

#[test]
fn length_squared_test() {
    let v1 = Vec3::new(S, 2 * S, -3 * S);

    assert_eq!(v1.length_squared(), 14 * S);
}

#[test]
fn length_test() {
    // the components square back to 1.3 + 2.2 + 5.5 = 9 only up to
    // truncation, so the length is 3 up to the fixed-point resolution
    let v1 = Vec3::new(sqrt_fixed(1_300_000), sqrt_fixed(2_200_000), sqrt_fixed(5_500_000));

    assert!((v1.length() - 3 * S).abs() < 100);
}

#[test]
fn dot_test() {
    let v1 = Vec3::new(S, 2 * S, 3 * S);
    let v2 = Vec3::new(4 * S, 5 * S, 6 * S);

    assert_eq!(Vec3::dot(v1, v2), 32 * S);
}

#[test]
fn cross_test() {
    let v1 = Vec3::new(S, 2 * S, 3 * S);
    let v2 = Vec3::new(4 * S, 5 * S, 6 * S);

    assert_eq!(Vec3::cross(v1, v2), Vec3::new(-3 * S, 6 * S, -3 * S));
}

#[test]
fn unit_vector_test() {
    let x = sqrt_fixed(1_200_000);
    let y = sqrt_fixed(2_100_000);
    let z = sqrt_fixed(5_700_000);
    let v1 = Vec3::new(x, y, z);

    let l = v1.length();
    assert_eq!(v1.unit_vector(), v1.div(l));
}

#[test]
fn add_sub_round_trip_test() {
    let v = Vec3::new(1_234_567, -7_654_321, 42);
    let w = Vec3::new(-999_999, 123, 8_000_000);

    assert_eq!(v.add(w).sub(w), v);
    assert_eq!(v.sub(w).add(w), v);
}

#[test]
fn scale_div_round_trip_test() {
    let v = Vec3::new(1_500_000, -2_250_000, 3 * S);
    let s = 2 * S;

    assert_eq!(v.scale(s).div(s), v);
}

#[test]
fn div_scale_round_trip_test() {
    // every scaled component is an exact multiple of the scale, so dividing
    // and multiplying back restores the vector
    let v = Vec3::new(1_500_000, -2_250_000, 3 * S);
    let s = 2 * S;

    assert_eq!(v.div(s).scale(s), v);
}

#[test]
fn random_range_empty_test() {
    // an empty range yields its only point
    assert_eq!(random_range_scalar(5, 5), 5);
    assert_eq!(Vec3::random_range_vec3(7, 7), Vec3::new(7, 7, 7));
}

#[test]
fn reflect_test() {
    // a ray going down-right bounces off a floor normal into up-right
    let v = Vec3::new(707_107, -707_107, 0);
    let n = Vec3::new(0, S, 0);

    assert_eq!(Vec3::reflect(v, n), Vec3::new(707_107, 707_107, 0));
}

#[test]
fn refract_straight_through_test() {
    // a ratio of exactly one transmits the incident direction unchanged
    let uv = Vec3::new(0, -S, 0);
    let n = Vec3::new(0, S, 0);

    assert_eq!(Vec3::refract(uv, n, S), uv);
}

#[test]
fn near_zero_test() {
    assert!(Vec3::new(0, 0, 0).near_zero());
    assert!(!Vec3::new(1, 0, 0).near_zero());
}

#[test]
fn random_range_vec3_test() {
    let v = Vec3::random_range_vec3(-S, S);
    assert!(-S <= v.x() && v.x() < S);
    assert!(-S <= v.y() && v.y() < S);
    assert!(-S <= v.z() && v.z() < S);
}

#[test]
fn random_in_unit_sphere_test() {
    let p = Vec3::random_in_unit_sphere();
    assert!(p.length_squared() < S);
}
