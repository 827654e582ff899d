//! The sphere primitive and its ray-intersection test.

use vstd::prelude::*;
use crate::fixed::{SCALE, fmul, div_trunc, isqrt_spec, mul_fixed, div_trunc_wide, abs_int};
use crate::fixed::{lemma_fmul_range, lemma_fmul_self_nonneg};
use crate::ray::{Ray, T_LIMIT};
use crate::tracer::{HitRecord, HitTable};
use crate::vec3::{Vec3, Point3, COORD_LIMIT, DOT_LIMIT, UNIT_LIMIT};
use crate::materials::MaterialType;

verus! {

#[derive(Clone, Copy, Debug, PartialEq, Eq, Structural)]
pub struct Sphere {
    pub center: Point3,
    pub radius: i64,
    pub material: MaterialType,
}

impl Sphere {
    /// The center is a well-formed point, the radius is a nonzero in-range
    /// scalar (negative models a hollow sphere), and the material is valid.
    pub open spec fn wf(self) -> bool {
        &&& self.center.wf()
        &&& self.radius != 0
        &&& -COORD_LIMIT <= self.radius <= COORD_LIMIT
        &&& self.material.wf()
    }

    pub fn new(x: i64, y: i64, z: i64, radius: i64, material: MaterialType) -> (s: Sphere)
        requires
            -COORD_LIMIT <= x <= COORD_LIMIT,
            -COORD_LIMIT <= y <= COORD_LIMIT,
            -COORD_LIMIT <= z <= COORD_LIMIT,
            radius != 0,
            -COORD_LIMIT <= radius <= COORD_LIMIT,
            material.wf(),
        ensures
            s.center == (Vec3 { x, y, z }),
            s.radius == radius,
            s.material == material,
            s.wf(),
    {
        Sphere { center: Vec3 { x, y, z }, radius, material }
    }

    /// Squared length of the ray's direction.
    pub open spec fn spec_a(ray: Ray) -> int {
        Vec3::spec_dot(ray.direction, ray.direction)
    }

    /// Half the linear coefficient of the intersection quadratic.
    pub open spec fn spec_half_b(self, ray: Ray) -> int {
        Vec3::spec_dot(Vec3::spec_sub(ray.origin, self.center), ray.direction)
    }

    /// The constant coefficient of the intersection quadratic.
    pub open spec fn spec_c(self, ray: Ray) -> int {
        let oc = Vec3::spec_sub(ray.origin, self.center);
        Vec3::spec_dot(oc, oc) - fmul(self.radius as int, self.radius as int)
    }

    /// The discriminant of the intersection quadratic, computed exactly.
    pub open spec fn spec_discriminant(self, ray: Ray) -> int {
        self.spec_half_b(ray) * self.spec_half_b(ray) - Sphere::spec_a(ray) * self.spec_c(ray)
    }

    /// The record produced for a root `t`, if the hit point and the outward
    /// normal stay within the representable domain.
    pub open spec fn spec_record(self, ray: Ray, t: i64) -> Option<HitRecord> {
        let p = ray.spec_at(t as int);
        if !p.wf() {
            None
        } else {
            let outward = Vec3::spec_divs(Vec3::spec_sub(p, self.center), self.radius as int);
            if !outward.bounded(UNIT_LIMIT as int) {
                None
            } else {
                let front_face = Vec3::spec_dot(ray.direction, outward) < 0;
                Some(HitRecord {
                    p,
                    normal: if front_face { outward } else { Vec3::spec_neg(outward) },
                    material: self.material,
                    t,
                    front_face,
                })
            }
        }
    }

    /// The exact answer of the intersection test: no real root or a
    /// degenerate direction misses; otherwise the nearer root is taken if it
    /// lies in `[t_min, t_max]`, else the farther, else the ray misses.
    pub open spec fn spec_hit(self, ray: Ray, t_min: i64, t_max: i64) -> Option<HitRecord> {
        let a = Sphere::spec_a(ray);
        let half_b = self.spec_half_b(ray);
        let disc = self.spec_discriminant(ray);
        if a == 0 || disc < 0 {
            None
        } else {
            let sqrtd = isqrt_spec(disc as nat) as int;
            let root1 = div_trunc((0 - half_b - sqrtd) * SCALE, a);
            let root2 = div_trunc((0 - half_b + sqrtd) * SCALE, a);
            let root = if root1 < t_min || t_max < root1 {
                root2
            } else {
                root1
            };
            if root < t_min || t_max < root {
                None
            } else {
                self.spec_record(ray, root as i64)
            }
        }
    }
}

/// Every record the intersection test hands out carries exactly the test's
/// own geometry: the point is the ray evaluated at the returned parameter,
/// and the stored normal is the oriented componentwise quotient of
/// `p - center` by the radius.
pub proof fn lemma_hit_record_geometry(s: Sphere, ray: Ray, t_min: i64, t_max: i64)
    ensures
        s.spec_hit(ray, t_min, t_max) matches Some(rec) ==> {
            let p = ray.spec_at(rec.t as int);
            let outward = Vec3::spec_divs(Vec3::spec_sub(p, s.center), s.radius as int);
            &&& rec.p == p
            &&& rec.front_face == (Vec3::spec_dot(ray.direction, outward) < 0)
            &&& rec.normal == if rec.front_face {
                outward
            } else {
                Vec3::spec_neg(outward)
            }
            &&& rec.material == s.material
        },
{
}

/// A negative discriminant admits no hit, whatever the query range.
pub proof fn lemma_negative_discriminant_misses(s: Sphere, ray: Ray, t_min: i64, t_max: i64)
    requires
        s.spec_discriminant(ray) < 0,
    ensures
        s.spec_hit(ray, t_min, t_max) is None,
{
}

/// At a discriminant of exactly zero the tangent parameter is the unique
/// root: it must lie in `[t_min, t_max]` for the hit to count, and any
/// record handed out carries exactly that parameter.
pub proof fn lemma_zero_discriminant_tangent(s: Sphere, ray: Ray, t_min: i64, t_max: i64)
    requires
        s.spec_discriminant(ray) == 0,
        Sphere::spec_a(ray) != 0,
    ensures
        ({
            let root = div_trunc((0 - s.spec_half_b(ray)) * SCALE, Sphere::spec_a(ray));
            &&& (root < t_min || t_max < root) ==> s.spec_hit(ray, t_min, t_max) is None
            &&& (s.spec_hit(ray, t_min, t_max) matches Some(rec) ==> rec.t == root)
        }),
{
    assert(isqrt_spec(0nat) == 0);
}

impl HitTable for Sphere {
    open spec fn hit_ok(&self) -> bool {
        self.wf()
    }

    open spec fn hit_spec(&self, ray: Ray, t_min: i64, t_max: i64) -> Option<HitRecord> {
        self.spec_hit(ray, t_min, t_max)
    }

    proof fn hit_properties(&self, ray: Ray, t_min: i64, t_max: i64) {
        if self.spec_hit(ray, t_min, t_max) is Some {
            let rec = self.spec_hit(ray, t_min, t_max).unwrap();
            let p = ray.spec_at(rec.t as int);
            let outward = Vec3::spec_divs(Vec3::spec_sub(p, self.center), self.radius as int);
            crate::vec3::lemma_dot_neg(outward, ray.direction);
        }
    }

    fn hit(&self, ray: &Ray, t_min: i64, t_max: i64, rec: &mut HitRecord) -> (b: bool) {
        let oc = ray.origin().sub(self.center);
        let dir = ray.direction();
        proof {
            lemma_fmul_range(dir.x as int, dir.x as int, COORD_LIMIT as int, COORD_LIMIT as int);
            lemma_fmul_range(dir.y as int, dir.y as int, COORD_LIMIT as int, COORD_LIMIT as int);
            lemma_fmul_range(dir.z as int, dir.z as int, COORD_LIMIT as int, COORD_LIMIT as int);
            lemma_fmul_self_nonneg(dir.x as int);
            lemma_fmul_self_nonneg(dir.y as int);
            lemma_fmul_self_nonneg(dir.z as int);
            lemma_fmul_range(oc.x as int, dir.x as int, 2 * COORD_LIMIT as int, COORD_LIMIT as int);
            lemma_fmul_range(oc.y as int, dir.y as int, 2 * COORD_LIMIT as int, COORD_LIMIT as int);
            lemma_fmul_range(oc.z as int, dir.z as int, 2 * COORD_LIMIT as int, COORD_LIMIT as int);
            lemma_fmul_range(oc.x as int, oc.x as int, 2 * COORD_LIMIT as int,
                2 * COORD_LIMIT as int);
            lemma_fmul_range(oc.y as int, oc.y as int, 2 * COORD_LIMIT as int,
                2 * COORD_LIMIT as int);
            lemma_fmul_range(oc.z as int, oc.z as int, 2 * COORD_LIMIT as int,
                2 * COORD_LIMIT as int);
            lemma_fmul_range(self.radius as int, self.radius as int, COORD_LIMIT as int,
                COORD_LIMIT as int);
            lemma_fmul_self_nonneg(self.radius as int);
        }
        let a = dir.length_squared();
        let half_b = Vec3::dot(oc, dir);
        let c = oc.length_squared() - mul_fixed(self.radius, self.radius);
        if a == 0 {
            return false;
        }
        proof {
            assert((half_b as i128) * (half_b as i128)
                <= 360_000_000_000_000_000_000_000_000_000i128
                && -360_000_000_000_000_000_000_000_000_000i128
                <= (half_b as i128) * (half_b as i128)) by (nonlinear_arith)
                requires -600_000_000_000_000 <= half_b as i128 <= 600_000_000_000_000,
            ;
            assert((a as i128) * (c as i128) <= 390_000_000_000_000_000_000_000_000_000i128
                && -390_000_000_000_000_000_000_000_000_000i128 <= (a as i128) * (c as i128))
                by (nonlinear_arith)
                requires
                    0 <= a as i128 <= 300_000_000_000_000,
                    -1_300_000_000_000_000 <= c as i128 <= 1_300_000_000_000_000,
            ;
        }
        let disc: i128 = (half_b as i128) * (half_b as i128) - (a as i128) * (c as i128);
        if disc < 0 {
            return false;
        }
        let sqrtd = crate::fixed::isqrt(disc as u128);
        let sqrtd_i = sqrtd as i128;
        proof {
            assert((0 - (half_b as i128) - sqrtd_i) * (SCALE as i128)
                == (0 - (half_b as int) - (sqrtd_i as int)) * (SCALE as int)
                && -2_000_000_000_000_000_000_000_000i128
                <= (0 - (half_b as i128) - sqrtd_i) * (SCALE as i128)
                <= 2_000_000_000_000_000_000_000_000i128) by (nonlinear_arith)
                requires
                    -600_000_000_000_000 <= half_b as i128 <= 600_000_000_000_000,
                    0 <= sqrtd_i < 1_125_899_906_842_624i128,
                    SCALE == 1_000_000,
            ;
            assert((0 - (half_b as i128) + sqrtd_i) * (SCALE as i128)
                == (0 - (half_b as int) + (sqrtd_i as int)) * (SCALE as int)
                && -2_000_000_000_000_000_000_000_000i128
                <= (0 - (half_b as i128) + sqrtd_i) * (SCALE as i128)
                <= 2_000_000_000_000_000_000_000_000i128) by (nonlinear_arith)
                requires
                    -600_000_000_000_000 <= half_b as i128 <= 600_000_000_000_000,
                    0 <= sqrtd_i < 1_125_899_906_842_624i128,
                    SCALE == 1_000_000,
            ;
        }
        let mut root = div_trunc_wide((0 - (half_b as i128) - sqrtd_i) * (SCALE as i128),
            a as i128);
        if root < (t_min as i128) || (t_max as i128) < root {
            root = div_trunc_wide((0 - (half_b as i128) + sqrtd_i) * (SCALE as i128), a as i128);
            if root < (t_min as i128) || (t_max as i128) < root {
                return false;
            }
        }
        let t = root as i64;
        let p = ray.at(t);
        if !p.is_wf() {
            return false;
        }
        let outward = p.sub(self.center).div(self.radius);
        if !outward.is_bounded(UNIT_LIMIT) {
            return false;
        }
        rec.t = t;
        rec.p = p;
        rec.material = self.material;
        rec.set_face_normal(ray, outward);
        true
    }
}

} // verus!
