//! The diffuse material: scatters into a random direction around the normal.

use vstd::prelude::*;
use crate::fixed::SCALE;
use crate::ray::Ray;
use crate::tracer::{HitRecord, Material};
use crate::vec3::{Vec3, Color};

verus! {

#[derive(Clone, Copy, Debug, PartialEq, Eq, Structural)]
pub struct Lambertian {
    pub albedo: Color,
}

impl Lambertian {
    /// The albedo is a color within the unit range.
    pub open spec fn wf(self) -> bool {
        &&& 0 <= self.albedo.x <= SCALE
        &&& 0 <= self.albedo.y <= SCALE
        &&& 0 <= self.albedo.z <= SCALE
    }

    pub fn new(r: i64, g: i64, b: i64) -> (m: Lambertian)
        requires
            0 <= r <= SCALE,
            0 <= g <= SCALE,
            0 <= b <= SCALE,
        ensures
            m.albedo == (Vec3 { x: r, y: g, z: b }),
            m.wf(),
    {
        Lambertian { albedo: Vec3 { x: r, y: g, z: b } }
    }
}

impl Material for Lambertian {
    open spec fn scatter_ok(&self) -> bool {
        self.wf()
    }

    /// Diffuse scattering never absorbs: the scattered ray starts at the hit
    /// point, in the direction of the normal perturbed by a random
    /// roughly-unit vector, with the normal itself as fallback when the sum
    /// vanishes — so the direction never vanishes unless the normal does.
    fn scatter(
        &self,
        r_in: &Ray,
        hit_record: &HitRecord,
        attenuation: &mut Color,
        scattered: &mut Ray,
    ) -> (b: bool)
        ensures
            b == true,
            *final(attenuation) == self.albedo,
            final(scattered).origin == hit_record.p,
            final(scattered).direction.bounded(6_000_000int),
            exists|u: Vec3|
                #![trigger Vec3::spec_add(hit_record.normal, u)]
                u.bounded(2 * SCALE as int) && final(scattered).direction == ({
                    let d = Vec3::spec_add(hit_record.normal, u);
                    if d == (Vec3 { x: 0i64, y: 0i64, z: 0i64 }) {
                        hit_record.normal
                    } else {
                        d
                    }
                }),
            hit_record.normal != (Vec3 { x: 0i64, y: 0i64, z: 0i64 }) ==> final(
                scattered).direction != (Vec3 { x: 0i64, y: 0i64, z: 0i64 }),
    {
        let rnd = Vec3::random_unit_vector();
        let mut scatter_direction = hit_record.normal.add(rnd);
        if scatter_direction.near_zero() {
            scatter_direction = hit_record.normal;
        }
        proof {
            assert(scatter_direction == ({
                let d = Vec3::spec_add(hit_record.normal, rnd);
                if d == (Vec3 { x: 0i64, y: 0i64, z: 0i64 }) {
                    hit_record.normal
                } else {
                    d
                }
            }));
        }
        *scattered = Ray::new(hit_record.p, scatter_direction);
        *attenuation = self.albedo;
        true
    }
}

} // verus!
