//! The fuzzy specular material: mirror reflection perturbed by roughness.

use vstd::prelude::*;
use crate::fixed::SCALE;
use crate::ray::Ray;
use crate::tracer::{HitRecord, Material};
use crate::vec3::{Vec3, Color, lemma_unit_component_bound};

verus! {

#[derive(Clone, Copy, Debug, PartialEq, Eq, Structural)]
pub struct Metal {
    pub albedo: Color,
    pub fuzz: i64,
}

impl Metal {
    /// The albedo is a color within the unit range and the fuzz lies in
    /// `[0, 1]`.
    pub open spec fn wf(self) -> bool {
        &&& 0 <= self.albedo.x <= SCALE
        &&& 0 <= self.albedo.y <= SCALE
        &&& 0 <= self.albedo.z <= SCALE
        &&& 0 <= self.fuzz <= SCALE
    }

    /// The fuzz parameter is clamped into `[0, 1]` at construction.
    pub fn new(r: i64, g: i64, b: i64, f: i64) -> (m: Metal)
        requires
            0 <= r <= SCALE,
            0 <= g <= SCALE,
            0 <= b <= SCALE,
        ensures
            m.albedo == (Vec3 { x: r, y: g, z: b }),
            f < 0 ==> m.fuzz == 0,
            f > SCALE ==> m.fuzz == SCALE,
            0 <= f <= SCALE ==> m.fuzz == f,
            m.wf(),
    {
        let fuzz = crate::fixed::clamp(f, 0, SCALE);
        Metal { albedo: Vec3 { x: r, y: g, z: b }, fuzz }
    }
}

impl Material for Metal {
    open spec fn scatter_ok(&self) -> bool {
        self.wf()
    }

    /// Specular scattering reflects the unit incoming direction about the
    /// normal, perturbed by a fuzz-scaled ball sample; the ray survives
    /// exactly when the perturbed direction still points off the surface.
    /// With zero fuzz the direction is exactly the mirror reflection.
    fn scatter(
        &self,
        r_in: &Ray,
        hit_record: &HitRecord,
        attenuation: &mut Color,
        scattered: &mut Ray,
    ) -> (b: bool)
        ensures
            *final(attenuation) == self.albedo,
            final(scattered).origin == hit_record.p,
            b == (Vec3::spec_dot(final(scattered).direction, hit_record.normal) > 0),
            self.fuzz == 0 ==> final(scattered).direction == Vec3::spec_reflect(
                Vec3::spec_unit(r_in.direction), hit_record.normal),
            exists|p: Vec3|
                p.bounded(SCALE as int) && Vec3::spec_dot(p, p) < SCALE && final(
                scattered).direction == Vec3::spec_add(
                    Vec3::spec_reflect(Vec3::spec_unit(r_in.direction), hit_record.normal),
                    #[trigger] Vec3::spec_scale(p, self.fuzz as int),
                ),
    {
        proof {
            lemma_unit_component_bound(r_in.direction);
        }
        let reflected = Vec3::reflect(r_in.direction().unit_vector(), hit_record.normal);
        let ball = Vec3::random_in_unit_sphere();
        proof {
            crate::fixed::lemma_fmul_range(ball.x as int, self.fuzz as int, SCALE as int,
                SCALE as int);
            crate::fixed::lemma_fmul_range(ball.y as int, self.fuzz as int, SCALE as int,
                SCALE as int);
            crate::fixed::lemma_fmul_range(ball.z as int, self.fuzz as int, SCALE as int,
                SCALE as int);
        }
        let fuzzed = ball.scale(self.fuzz);
        *scattered = Ray::new(hit_record.p, reflected.add(fuzzed));
        *attenuation = self.albedo;
        proof {
            assert(scattered.direction == Vec3::spec_add(
                Vec3::spec_reflect(Vec3::spec_unit(r_in.direction), hit_record.normal),
                Vec3::spec_scale(ball, self.fuzz as int),
            ));
            if self.fuzz == 0 {
                crate::fixed::lemma_fmul_identity(ball.x as int);
                crate::fixed::lemma_fmul_identity(ball.y as int);
                crate::fixed::lemma_fmul_identity(ball.z as int);
                assert(fuzzed == (Vec3 { x: 0i64, y: 0i64, z: 0i64 }));
            }
        }
        Vec3::dot(scattered.direction(), hit_record.normal) > 0
    }
}

} // verus!
