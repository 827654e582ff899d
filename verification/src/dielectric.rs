//! The dielectric material: refraction with total internal reflection and a
//! Schlick-approximated stochastic reflectance.

use vstd::prelude::*;
use crate::fixed::{SCALE, fmul, fdiv, fsqrt, mul_fixed, div_fixed, sqrt_fixed};
use crate::ray::Ray;
use crate::tracer::{HitRecord, Material, spec_white};
use crate::vec3::{Vec3, Color, lemma_unit_component_bound};

verus! {

#[derive(Clone, Copy, Debug, PartialEq, Eq, Structural)]
pub struct Dielectric {
    pub ir: i64,
}

impl Dielectric {
    /// The refractive index lies in `[0.1, 10]`.
    pub open spec fn wf(self) -> bool {
        100_000 <= self.ir <= 10_000_000
    }

    pub fn new(ir: i64) -> (m: Dielectric)
        requires
            100_000 <= ir <= 10_000_000,
        ensures
            m.ir == ir,
            m.wf(),
    {
        Dielectric { ir }
    }

    /// The ratio of refraction indices a hit sees: the reciprocal index when
    /// the outside was hit, the index itself from inside.
    pub open spec fn spec_ratio(self, front_face: bool) -> int {
        if front_face {
            fdiv(SCALE as int, self.ir as int)
        } else {
            self.ir as int
        }
    }

    /// Schlick's reflectance approximation.
    pub open spec fn spec_reflectance(cosine: int, ref_idx: int) -> int {
        let r0 = fdiv(SCALE - ref_idx, SCALE + ref_idx);
        let r0sq = fmul(r0, r0);
        let omc = SCALE - cosine;
        let p5 = fmul(fmul(fmul(omc, omc), fmul(omc, omc)), omc);
        r0sq + fmul(SCALE - r0sq, p5)
    }

    /// The clamped cosine between the reversed unit direction and the normal.
    pub open spec fn spec_cos_theta(unit_direction: Vec3, normal: Vec3) -> int {
        let d = Vec3::spec_dot(Vec3::spec_neg(unit_direction), normal);
        if d > SCALE {
            SCALE as int
        } else {
            d
        }
    }

    /// Whether the ratio forces total internal reflection: the scaled sine
    /// exceeds one.
    pub open spec fn spec_cannot_refract(unit_direction: Vec3, normal: Vec3, ratio: int) -> bool {
        let cos = Dielectric::spec_cos_theta(unit_direction, normal);
        let k = SCALE - fmul(cos, cos);
        let sin = fsqrt(if k < 0 { 0 } else { k });
        fmul(ratio, sin) > SCALE
    }

    fn reflectance(cosine: i64, ref_idx: i64) -> (r: i64)
        requires
            -24_000_000 <= cosine <= SCALE,
            100_000 <= ref_idx <= 10_000_000,
        ensures
            r == Dielectric::spec_reflectance(cosine as int, ref_idx as int),
    {
        proof {
            crate::fixed::lemma_fdiv_range(SCALE - ref_idx, SCALE + ref_idx, 9_000_000int,
                1_100_000int);
        }
        let r0 = div_fixed(SCALE - ref_idx, SCALE + ref_idx);
        proof {
            crate::fixed::lemma_fmul_range(r0 as int, r0 as int, 8_181_819int, 8_181_819int);
        }
        let r0sq = mul_fixed(r0, r0);
        let omc = SCALE - cosine;
        proof {
            crate::fixed::lemma_fmul_range(omc as int, omc as int, 25_000_000int, 25_000_000int);
        }
        let p2 = mul_fixed(omc, omc);
        proof {
            crate::fixed::lemma_fmul_range(p2 as int, p2 as int, 625_000_000int, 625_000_000int);
        }
        let p4 = mul_fixed(p2, p2);
        proof {
            crate::fixed::lemma_fmul_range(p4 as int, omc as int, 390_625_000_000int,
                25_000_000int);
        }
        let p5 = mul_fixed(p4, omc);
        proof {
            crate::fixed::lemma_fmul_self_nonneg(r0 as int);
            crate::fixed::lemma_fmul_range(SCALE - r0sq as int, p5 as int, 68_000_000int,
                9_765_625_000_000int);
        }
        r0sq + mul_fixed(SCALE - r0sq, p5)
    }
}

impl Material for Dielectric {
    open spec fn scatter_ok(&self) -> bool {
        self.wf()
    }

    /// Dielectric scattering never absorbs and attenuates nothing: the ray
    /// continues from the hit point, reflected whenever refraction is
    /// impossible, and otherwise reflected or refracted by a stochastic
    /// Schlick choice.
    fn scatter(
        &self,
        r_in: &Ray,
        hit_record: &HitRecord,
        attenuation: &mut Color,
        scattered: &mut Ray,
    ) -> (b: bool)
        ensures
            b == true,
            *final(attenuation) == spec_white(),
            final(scattered).origin == hit_record.p,
            final(scattered).direction == Vec3::spec_reflect(
                Vec3::spec_unit(r_in.direction), hit_record.normal)
            || final(scattered).direction == Vec3::spec_refract(
                Vec3::spec_unit(r_in.direction), hit_record.normal,
                self.spec_ratio(hit_record.front_face)),
            Dielectric::spec_cannot_refract(Vec3::spec_unit(r_in.direction), hit_record.normal,
                self.spec_ratio(hit_record.front_face))
                ==> final(scattered).direction == Vec3::spec_reflect(
                    Vec3::spec_unit(r_in.direction), hit_record.normal),
    {
        *attenuation = Vec3 { x: SCALE, y: SCALE, z: SCALE };
        let refraction_ratio = if hit_record.front_face {
            proof {
                crate::fixed::lemma_fdiv_range(SCALE as int, self.ir as int, SCALE as int,
                    100_000int);
                crate::fixed::lemma_fdiv_pos_lower(SCALE as int, self.ir as int, 10_000_000int);
            }
            div_fixed(SCALE, self.ir)
        } else {
            self.ir
        };
        proof {
            lemma_unit_component_bound(r_in.direction);
        }
        let unit_direction = r_in.direction().unit_vector();
        proof {
            crate::fixed::lemma_fmul_range(-unit_direction.x as int, hit_record.normal.x as int,
                2_000_000int, 4_000_000int);
            crate::fixed::lemma_fmul_range(-unit_direction.y as int, hit_record.normal.y as int,
                2_000_000int, 4_000_000int);
            crate::fixed::lemma_fmul_range(-unit_direction.z as int, hit_record.normal.z as int,
                2_000_000int, 4_000_000int);
        }
        let dd = Vec3::dot(unit_direction.neg(), hit_record.normal);
        let cos_theta = if dd > SCALE {
            SCALE
        } else {
            dd
        };
        proof {
            crate::fixed::lemma_fmul_range(cos_theta as int, cos_theta as int, 24_000_000int,
                24_000_000int);
            crate::fixed::lemma_fmul_self_nonneg(cos_theta as int);
        }
        let k = SCALE - mul_fixed(cos_theta, cos_theta);
        let sin_theta = sqrt_fixed(if k < 0 { 0 } else { k });
        proof {
            crate::fixed::lemma_fsqrt_upper(if k < 0 { 0int } else { k as int }, 1_000_001int);
            crate::fixed::lemma_fmul_range(refraction_ratio as int, sin_theta as int,
                10_000_000int, 1_000_001int);
        }
        let cannot_refract = mul_fixed(refraction_ratio, sin_theta) > SCALE;
        let direction = if cannot_refract || Dielectric::reflectance(cos_theta, refraction_ratio)
            > crate::rng::random_scalar() {
            Vec3::reflect(unit_direction, hit_record.normal)
        } else {
            Vec3::refract(unit_direction, hit_record.normal, refraction_ratio)
        };
        *scattered = Ray::new(hit_record.p, direction);
        true
    }
}

} // verus!
