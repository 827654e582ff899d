//! The tracing core: hit records, the intersection and scattering
//! capabilities, and the recursive path integrator.

use vstd::prelude::*;
use crate::fixed::{SCALE, fmul, mul_fixed};
use crate::ray::{Ray, T_LIMIT};
use crate::vec3::{Vec3, Color, DOT_LIMIT, DIR_FLOOR, UNIT_LIMIT, lemma_unit_component_bound};
use crate::materials::MaterialType;

verus! {

/// Lower parameter bound for secondary rays; keeps a bounce from re-hitting
/// the surface it starts on.
pub const T_EPS: i64 = 1_000;

#[derive(Clone, Copy, Debug, PartialEq, Eq, Structural)]
pub struct HitRecord {
    pub p: Vec3,
    pub normal: Vec3,
    pub material: MaterialType,
    pub t: i64,
    pub front_face: bool,
}

impl Default for HitRecord {
    fn default() -> (r: Self)
        ensures
            r == HitRecord::spec_default(),
    {
        HitRecord {
            p: Vec3 { x: 0, y: 0, z: 0 },
            normal: Vec3 { x: 0, y: 0, z: 0 },
            material: MaterialType::Unset,
            t: 0,
            front_face: false,
        }
    }
}

impl HitRecord {
    pub open spec fn spec_default() -> HitRecord {
        HitRecord {
            p: Vec3 { x: 0, y: 0, z: 0 },
            normal: Vec3 { x: 0, y: 0, z: 0 },
            material: MaterialType::Unset,
            t: 0,
            front_face: false,
        }
    }

    /// A record an intersection query may hand out: the point and the normal
    /// are in range and the normal never points into the incoming ray.
    pub open spec fn accepted(self, ray: Ray, t_min: int, t_max: int) -> bool {
        &&& t_min <= self.t <= t_max
        &&& self.p.wf()
        &&& self.normal.bounded(UNIT_LIMIT as int)
        &&& Vec3::spec_dot(self.normal, ray.direction) <= 0
        &&& self.material.wf()
    }

    /// Orients `outward_normal` against the incoming ray and records which
    /// side was hit. The stored normal never points into the ray.
    pub fn set_face_normal(&mut self, ray: &Ray, outward_normal: Vec3)
        requires
            ray.direction.bounded(DOT_LIMIT as int),
            outward_normal.bounded(DOT_LIMIT as int),
        ensures
            final(self).front_face == (Vec3::spec_dot(ray.direction, outward_normal) < 0),
            final(self).normal == if final(self).front_face {
                outward_normal
            } else {
                Vec3::spec_neg(outward_normal)
            },
            Vec3::spec_dot(final(self).normal, ray.direction) <= 0,
            final(self).p == old(self).p,
            final(self).material == old(self).material,
            final(self).t == old(self).t,
    {
        self.front_face = Vec3::dot(ray.direction(), outward_normal) < 0;
        proof {
            crate::vec3::lemma_dot_neg(outward_normal, ray.direction);
        }
        self.normal = if self.front_face {
            outward_normal
        } else {
            outward_normal.neg()
        };
    }
}

/// The intersection capability: an object (or aggregate) answering nearest-hit
/// queries. `hit_spec` names the exact answer, `hit_properties` states what
/// every answer satisfies, and `hit` computes it.
pub trait HitTable {
    /// The object's own validity: what its constructor established.
    spec fn hit_ok(&self) -> bool;

    /// The exact answer of a nearest-hit query.
    spec fn hit_spec(&self, ray: Ray, t_min: i64, t_max: i64) -> Option<HitRecord>;

    /// Every record handed out is an accepted record for the query.
    proof fn hit_properties(&self, ray: Ray, t_min: i64, t_max: i64)
        requires
            self.hit_ok(),
            ray.wf(),
            -T_LIMIT <= t_min,
            t_max <= T_LIMIT,
        ensures
            self.hit_spec(ray, t_min, t_max) matches Some(rec)
                ==> rec.accepted(ray, t_min as int, t_max as int),
    ;

    fn hit(&self, ray: &Ray, t_min: i64, t_max: i64, rec: &mut HitRecord) -> (b: bool)
        requires
            self.hit_ok(),
            ray.wf(),
            -T_LIMIT <= t_min,
            t_max <= T_LIMIT,
        ensures
            b == self.hit_spec(*ray, t_min, t_max) is Some,
            b ==> Some(*final(rec)) == self.hit_spec(*ray, t_min, t_max),
            !b ==> *final(rec) == *old(rec),
    ;
}

/// The scattering capability of a material: from an incoming ray and a hit,
/// an attenuation and an outgoing ray, or absorption. Whatever the material
/// draws, a scattered ray starts at the hit point, stays well-formed, and the
/// attenuation is a color within the unit range.
pub trait Material {
    /// The material's own validity: what its constructor established.
    spec fn scatter_ok(&self) -> bool;

    fn scatter(
        &self,
        r_in: &Ray,
        hit_record: &HitRecord,
        attenuation: &mut Color,
        scattered: &mut Ray,
    ) -> (b: bool)
        requires
            self.scatter_ok(),
            r_in.wf(),
            Vec3::spec_dot(r_in.direction, r_in.direction) >= DIR_FLOOR,
            hit_record.p.wf(),
            hit_record.normal.bounded(UNIT_LIMIT as int),
        ensures
            b ==> final(scattered).origin == hit_record.p,
            b ==> final(scattered).direction.wf(),
            0 <= final(attenuation).x <= SCALE,
            0 <= final(attenuation).y <= SCALE,
            0 <= final(attenuation).z <= SCALE,
    ;
}

pub open spec fn spec_white() -> Color {
    Vec3 { x: SCALE, y: SCALE, z: SCALE }
}

pub open spec fn spec_black() -> Color {
    Vec3 { x: 0, y: 0, z: 0 }
}

pub open spec fn spec_sky_zenith() -> Color {
    Vec3 { x: 500_000, y: 700_000, z: SCALE }
}

/// The analytic sky gradient for a direction: a blend between white at the
/// horizon and light blue at the zenith, keyed on the unit direction's
/// vertical component.
pub open spec fn spec_sky(direction: Vec3) -> Color {
    let u = Vec3::spec_unit(direction);
    let t = fmul(500_000int, u.y + SCALE);
    Vec3::spec_add(
        Vec3::spec_scale(spec_white(), SCALE - t),
        Vec3::spec_scale(spec_sky_zenith(), t),
    )
}

/// The sky gradient's endpoints are exact: a unit direction pointing straight
/// down gives pure white, straight up gives the zenith color.
pub proof fn lemma_sky_endpoints(direction: Vec3)
    ensures
        Vec3::spec_unit(direction).y == -SCALE ==> spec_sky(direction) == spec_white(),
        Vec3::spec_unit(direction).y == SCALE ==> spec_sky(direction) == spec_sky_zenith(),
{
    let u = Vec3::spec_unit(direction);
    if u.y == -SCALE {
        assert(fmul(500_000int, 0int) == 0);
        assert(fmul(SCALE as int, SCALE as int) == SCALE);
        assert(fmul(500_000int, 0int) == 0 && fmul(700_000int, 0int) == 0 && fmul(
            SCALE as int, 0int) == 0);
        assert(spec_sky(direction) == spec_white());
    }
    if u.y == SCALE {
        assert(500_000int * (2 * SCALE as int) == 1_000_000_000_000int) by (nonlinear_arith);
        crate::fixed::lemma_div_trunc_nonneg(1_000_000_000_000int, SCALE as int);
        assert(fmul(500_000int, 2 * SCALE as int) == SCALE);
        assert(fmul(SCALE as int, 0int) == 0);
        assert(500_000int * (SCALE as int) == 500_000_000_000int) by (nonlinear_arith);
        assert(700_000int * (SCALE as int) == 700_000_000_000int) by (nonlinear_arith);
        crate::fixed::lemma_div_trunc_nonneg(500_000_000_000int, SCALE as int);
        crate::fixed::lemma_div_trunc_nonneg(700_000_000_000int, SCALE as int);
        assert(fmul(500_000int, SCALE as int) == 500_000 && fmul(700_000int, SCALE as int)
            == 700_000 && fmul(SCALE as int, SCALE as int) == SCALE);
        assert(spec_sky(direction) == spec_sky_zenith());
    }
}

/// The sky gradient is a color within twice the unit range whenever the unit
/// direction it is keyed on is within twice the unit scale.
pub proof fn lemma_sky_range(direction: Vec3)
    requires
        Vec3::spec_unit(direction).bounded(2 * SCALE as int),
    ensures
        0 <= spec_sky(direction).x <= 2 * SCALE,
        0 <= spec_sky(direction).y <= 2 * SCALE,
        0 <= spec_sky(direction).z <= 2 * SCALE,
{
    let s = SCALE as int;
    let uy = Vec3::spec_unit(direction).y as int;
    let t = fmul(500_000int, uy + s);
    crate::fixed::lemma_fmul_range(500_000int, uy + s, 500_000int, 3 * s);
    crate::fixed::lemma_div_trunc_product_bounds(500_000 * (uy + s), s);
    assert(-500_000 <= t <= 1_500_000) by {
        if uy + s < 0 {
            crate::fixed::lemma_fmul_range(500_000int, uy + s, 500_000int, s);
            assert(500_000 * (uy + s) <= 0) by (nonlinear_arith)
                requires uy + s <= 0,
            ;
        } else {
            assert(500_000 * (uy + s) >= 0) by (nonlinear_arith)
                requires uy + s >= 0,
            ;
        }
    }
    crate::fixed::lemma_fmul_identity(s - t);
    crate::fixed::lemma_fmul_identity(t);
    let ft = fmul(500_000int, t);
    let gt = fmul(700_000int, t);
    crate::fixed::lemma_div_trunc_product_bounds(500_000 * t, s);
    crate::fixed::lemma_div_trunc_product_bounds(700_000 * t, s);
    crate::fixed::lemma_fmul_range(500_000int, t, 500_000int, 1_500_000int);
    crate::fixed::lemma_fmul_range(700_000int, t, 700_000int, 1_500_000int);
    assert(s * ((s - t) + ft) == s * (s - t) + s * ft) by (nonlinear_arith);
    assert(s * ((s - t) + gt) == s * (s - t) + s * gt) by (nonlinear_arith);
    if t >= 0 {
        assert(0 <= 500_000 * t <= 750_000_000_000int) by (nonlinear_arith)
            requires 0 <= t <= 1_500_000,
        ;
        assert(0 <= 700_000 * t <= 1_050_000_000_000int) by (nonlinear_arith)
            requires 0 <= t <= 1_500_000,
        ;
        assert(s * ((s - t) + ft) > 0 && s * ((s - t) + ft) <= s * (2 * s));
        assert(s * ((s - t) + gt) > 0 && s * ((s - t) + gt) <= s * (2 * s));
    } else {
        assert(-250_000_000_000int <= 500_000 * t <= 0) by (nonlinear_arith)
            requires -500_000 <= t <= 0,
        ;
        assert(-350_000_000_000int <= 700_000 * t <= 0) by (nonlinear_arith)
            requires -500_000 <= t <= 0,
        ;
        assert(s * ((s - t) + ft) > 0 && s * ((s - t) + ft) <= s * (2 * s));
        assert(s * ((s - t) + gt) > 0 && s * ((s - t) + gt) <= s * (2 * s));
    }
    assert(0 < (s - t) + ft <= 2 * s) by (nonlinear_arith)
        requires s * ((s - t) + ft) > 0, s * ((s - t) + ft) <= s * (2 * s), s > 0,
    ;
    assert(0 < (s - t) + gt <= 2 * s) by (nonlinear_arith)
        requires s * ((s - t) + gt) > 0, s * ((s - t) + gt) <= s * (2 * s), s > 0,
    ;
    assert(spec_sky(direction).x == (s - t) + ft);
    assert(spec_sky(direction).y == (s - t) + gt);
    assert(spec_sky(direction).z == (s - t) + t);
}

/// Evaluates the radiance along a ray: black once the bounce budget is spent,
/// the material-attenuated radiance of the scattered ray on a hit, and the
/// sky gradient where nothing is hit. Directions below the resolution floor
/// are treated as degenerate and return black. Every component of the result
/// lies in twice the unit range; with a single bounce left, a hit resolves
/// deterministically to black, and a diffuse or specular hit factors into the
/// albedo times a bounced radiance.
pub fn ray_color<T: HitTable>(ray: Ray, world: &T, depth: u32) -> (c: Color)
    requires
        world.hit_ok(),
        ray.wf(),
    ensures
        0 <= c.x <= 2 * SCALE,
        0 <= c.y <= 2 * SCALE,
        0 <= c.z <= 2 * SCALE,
        depth == 0 ==> c == spec_black(),
        depth > 0 && Vec3::spec_dot(ray.direction, ray.direction) < DIR_FLOOR
            ==> c == spec_black(),
        depth > 0 && Vec3::spec_dot(ray.direction, ray.direction) >= DIR_FLOOR
            && world.hit_spec(ray, T_EPS, T_LIMIT) is None ==> c == spec_sky(ray.direction),
        depth > 0 && Vec3::spec_dot(ray.direction, ray.direction) >= DIR_FLOOR
            && (world.hit_spec(ray, T_EPS, T_LIMIT) matches Some(rec) && rec.material
            is Unset) ==> c == spec_black(),
        depth == 1 && Vec3::spec_dot(ray.direction, ray.direction) >= DIR_FLOOR
            && world.hit_spec(ray, T_EPS, T_LIMIT) is Some ==> c == spec_black(),
        depth > 0 && Vec3::spec_dot(ray.direction, ray.direction) >= DIR_FLOOR
            ==> (world.hit_spec(ray, T_EPS, T_LIMIT) matches Some(rec)
            ==> (rec.material matches MaterialType::Lambertian(l) ==> exists|b: Color|
                0 <= b.x <= 2 * SCALE && 0 <= b.y <= 2 * SCALE && 0 <= b.z <= 2 * SCALE && c
                    == #[trigger] Vec3::spec_cmul(l.albedo, b))),
        depth > 0 && Vec3::spec_dot(ray.direction, ray.direction) >= DIR_FLOOR
            ==> (world.hit_spec(ray, T_EPS, T_LIMIT) matches Some(rec)
            ==> (rec.material matches MaterialType::Metal(m) ==> c == spec_black()
                || exists|b: Color|
                0 <= b.x <= 2 * SCALE && 0 <= b.y <= 2 * SCALE && 0 <= b.z <= 2 * SCALE && c
                    == #[trigger] Vec3::spec_cmul(m.albedo, b))),
    decreases depth,
{
    if depth == 0 {
        return Vec3 { x: 0, y: 0, z: 0 };
    }
    let dir = ray.direction();
    if dir.length_squared() < DIR_FLOOR {
        return Vec3 { x: 0, y: 0, z: 0 };
    }
    let mut rec = HitRecord::default();
    if world.hit(&ray, T_EPS, T_LIMIT, &mut rec) {
        proof {
            world.hit_properties(ray, T_EPS, T_LIMIT);
        }
        let mut scattered = Ray::default();
        let mut attenuation = Vec3 { x: 0, y: 0, z: 0 };
        let scattered_ok = match rec.material {
            MaterialType::Lambertian(l) => l.scatter(&ray, &rec, &mut attenuation, &mut scattered),
            MaterialType::Metal(m) => m.scatter(&ray, &rec, &mut attenuation, &mut scattered),
            MaterialType::Dielectric(d) => d.scatter(&ray, &rec, &mut attenuation, &mut scattered),
            MaterialType::Unset => false,
        };
        if scattered_ok {
            let bounced = ray_color(scattered, world, depth - 1);
            proof {
                crate::fixed::lemma_fmul_unit_interval(attenuation.x as int, bounced.x as int);
                crate::fixed::lemma_fmul_unit_interval(attenuation.y as int, bounced.y as int);
                crate::fixed::lemma_fmul_unit_interval(attenuation.z as int, bounced.z as int);
            }
            let shaded = attenuation.mul(bounced);
            proof {
                if depth == 1 {
                    crate::fixed::lemma_fmul_identity(attenuation.x as int);
                    crate::fixed::lemma_fmul_identity(attenuation.y as int);
                    crate::fixed::lemma_fmul_identity(attenuation.z as int);
                    assert(shaded == spec_black());
                }
                match rec.material {
                    MaterialType::Lambertian(l) => {
                        assert(shaded == Vec3::spec_cmul(l.albedo, bounced));
                    },
                    MaterialType::Metal(m) => {
                        assert(shaded == Vec3::spec_cmul(m.albedo, bounced));
                    },
                    _ => {},
                }
            }
            return shaded;
        }
        return Vec3 { x: 0, y: 0, z: 0 };
    }
    proof {
        lemma_unit_component_bound(ray.direction);
        lemma_sky_range(ray.direction);
        crate::fixed::lemma_fmul_range(500_000int,
            Vec3::spec_unit(ray.direction).y + SCALE, 500_000int, 3 * SCALE as int);
    }
    let unit_direction = dir.unit_vector();
    let t = mul_fixed(500_000, unit_direction.y + SCALE);
    proof {
        crate::fixed::lemma_fmul_range(SCALE as int, SCALE - t, SCALE as int, 2_500_000int);
        crate::fixed::lemma_fmul_range(500_000int, t as int, SCALE as int, 1_500_000int);
        crate::fixed::lemma_fmul_range(700_000int, t as int, SCALE as int, 1_500_000int);
        crate::fixed::lemma_fmul_range(SCALE as int, t as int, SCALE as int, 1_500_000int);
    }
    let white = Vec3 { x: SCALE, y: SCALE, z: SCALE };
    let zenith = Vec3 { x: 500_000, y: 700_000, z: SCALE };
    white.scale(SCALE - t).add(zenith.scale(t))
}

} // verus!
