//! Three-component fixed-point vectors, used as points, directions and colors.
//!
//! Every executable operation has a specification twin that states its result
//! exactly over mathematical integers; the `bounded` predicates carry the
//! magnitude limits under which the arithmetic cannot overflow.

use vstd::prelude::*;
use crate::fixed::{SCALE, fmul, fdiv, fsqrt, abs_int, mul_fixed, div_fixed, sqrt_fixed};
use crate::fixed::{lemma_fmul_range, lemma_fmul_self_nonneg, lemma_fixed_mul_div_cancel};

verus! {

/// Largest magnitude a coordinate of a well-formed point or direction takes.
pub const COORD_LIMIT: i64 = 10_000_000_000;

/// Largest magnitude under which products of two components cannot overflow.
pub const DOT_LIMIT: i64 = 1_000_000_000_000;

/// Smallest squared length at which a direction is treated as usable;
/// shorter directions are degenerate at this resolution.
pub const DIR_FLOOR: i64 = 10_000;

/// Magnitude bound satisfied by unit vectors and oriented surface normals.
pub const UNIT_LIMIT: i64 = 4_000_000;

#[derive(Clone, Copy, Debug, PartialEq, Eq, Structural)]
pub struct Vec3 {
    pub x: i64,
    pub y: i64,
    pub z: i64,
}

pub type Point3 = Vec3;

pub type Color = Vec3;

impl Vec3 {
    /// All components within `[-b, b]`.
    pub open spec fn bounded(self, b: int) -> bool {
        &&& -b <= self.x <= b
        &&& -b <= self.y <= b
        &&& -b <= self.z <= b
    }

    /// A well-formed point or direction of the scene.
    pub open spec fn wf(self) -> bool {
        self.bounded(COORD_LIMIT as int)
    }

    pub open spec fn spec_add(a: Vec3, b: Vec3) -> Vec3 {
        Vec3 { x: (a.x + b.x) as i64, y: (a.y + b.y) as i64, z: (a.z + b.z) as i64 }
    }

    pub open spec fn spec_sub(a: Vec3, b: Vec3) -> Vec3 {
        Vec3 { x: (a.x - b.x) as i64, y: (a.y - b.y) as i64, z: (a.z - b.z) as i64 }
    }

    pub open spec fn spec_neg(a: Vec3) -> Vec3 {
        Vec3 { x: (-a.x) as i64, y: (-a.y) as i64, z: (-a.z) as i64 }
    }

    /// Componentwise fixed-point product.
    pub open spec fn spec_cmul(a: Vec3, b: Vec3) -> Vec3 {
        Vec3 {
            x: fmul(a.x as int, b.x as int) as i64,
            y: fmul(a.y as int, b.y as int) as i64,
            z: fmul(a.z as int, b.z as int) as i64,
        }
    }

    /// Fixed-point product with one scalar.
    pub open spec fn spec_scale(a: Vec3, s: int) -> Vec3 {
        Vec3 {
            x: fmul(a.x as int, s) as i64,
            y: fmul(a.y as int, s) as i64,
            z: fmul(a.z as int, s) as i64,
        }
    }

    /// Fixed-point quotient by one scalar.
    pub open spec fn spec_divs(a: Vec3, s: int) -> Vec3 {
        Vec3 {
            x: fdiv(a.x as int, s) as i64,
            y: fdiv(a.y as int, s) as i64,
            z: fdiv(a.z as int, s) as i64,
        }
    }

    /// Fixed-point inner product.
    pub open spec fn spec_dot(a: Vec3, b: Vec3) -> int {
        fmul(a.x as int, b.x as int) + fmul(a.y as int, b.y as int) + fmul(
            a.z as int,
            b.z as int,
        )
    }

    pub open spec fn spec_cross(a: Vec3, b: Vec3) -> Vec3 {
        Vec3 {
            x: (fmul(a.y as int, b.z as int) - fmul(a.z as int, b.y as int)) as i64,
            y: (fmul(a.z as int, b.x as int) - fmul(a.x as int, b.z as int)) as i64,
            z: (fmul(a.x as int, b.y as int) - fmul(a.y as int, b.x as int)) as i64,
        }
    }

    /// Fixed-point length: the square root of the inner product with itself.
    pub open spec fn spec_len(a: Vec3) -> int {
        fsqrt(Vec3::spec_dot(a, a))
    }

    /// Each component divided by the length.
    pub open spec fn spec_unit(a: Vec3) -> Vec3 {
        Vec3::spec_divs(a, Vec3::spec_len(a))
    }

    /// Mirror reflection about a normal: `v - 2 * dot(v, n) * n`.
    pub open spec fn spec_reflect(v: Vec3, n: Vec3) -> Vec3 {
        Vec3::spec_sub(v, Vec3::spec_scale(n, 2 * Vec3::spec_dot(v, n)))
    }

    pub fn new(x: i64, y: i64, z: i64) -> (r: Vec3)
        ensures
            r == (Vec3 { x, y, z }),
    {
        Vec3 { x, y, z }
    }

    pub fn x(&self) -> (r: i64)
        ensures
            r == self.x,
    {
        self.x
    }

    pub fn y(&self) -> (r: i64)
        ensures
            r == self.y,
    {
        self.y
    }

    pub fn z(&self) -> (r: i64)
        ensures
            r == self.z,
    {
        self.z
    }

    pub fn add(self, rhs: Vec3) -> (r: Vec3)
        requires
            i64::MIN <= self.x + rhs.x <= i64::MAX,
            i64::MIN <= self.y + rhs.y <= i64::MAX,
            i64::MIN <= self.z + rhs.z <= i64::MAX,
        ensures
            r == Vec3::spec_add(self, rhs),
    {
        Vec3 { x: self.x + rhs.x, y: self.y + rhs.y, z: self.z + rhs.z }
    }

    pub fn sub(self, rhs: Vec3) -> (r: Vec3)
        requires
            i64::MIN <= self.x - rhs.x <= i64::MAX,
            i64::MIN <= self.y - rhs.y <= i64::MAX,
            i64::MIN <= self.z - rhs.z <= i64::MAX,
        ensures
            r == Vec3::spec_sub(self, rhs),
    {
        Vec3 { x: self.x - rhs.x, y: self.y - rhs.y, z: self.z - rhs.z }
    }

    pub fn neg(self) -> (r: Vec3)
        requires
            i64::MIN < self.x && i64::MIN < self.y && i64::MIN < self.z,
        ensures
            r == Vec3::spec_neg(self),
    {
        Vec3 { x: -self.x, y: -self.y, z: -self.z }
    }

    /// Componentwise product, used for color attenuation.
    pub fn mul(self, rhs: Vec3) -> (r: Vec3)
        requires
            self.bounded(DOT_LIMIT as int),
            rhs.bounded(DOT_LIMIT as int),
        ensures
            r == Vec3::spec_cmul(self, rhs),
    {
        proof {
            lemma_fmul_range(self.x as int, rhs.x as int, DOT_LIMIT as int, DOT_LIMIT as int);
            lemma_fmul_range(self.y as int, rhs.y as int, DOT_LIMIT as int, DOT_LIMIT as int);
            lemma_fmul_range(self.z as int, rhs.z as int, DOT_LIMIT as int, DOT_LIMIT as int);
        }
        Vec3 {
            x: mul_fixed(self.x, rhs.x),
            y: mul_fixed(self.y, rhs.y),
            z: mul_fixed(self.z, rhs.z),
        }
    }

    /// Product with one scalar.
    pub fn scale(self, s: i64) -> (r: Vec3)
        requires
            self.bounded(DOT_LIMIT as int),
            -DOT_LIMIT <= s <= DOT_LIMIT,
        ensures
            r == Vec3::spec_scale(self, s as int),
    {
        proof {
            lemma_fmul_range(self.x as int, s as int, DOT_LIMIT as int, DOT_LIMIT as int);
            lemma_fmul_range(self.y as int, s as int, DOT_LIMIT as int, DOT_LIMIT as int);
            lemma_fmul_range(self.z as int, s as int, DOT_LIMIT as int, DOT_LIMIT as int);
        }
        Vec3 { x: mul_fixed(self.x, s), y: mul_fixed(self.y, s), z: mul_fixed(self.z, s) }
    }

    /// Quotient by one scalar.
    pub fn div(self, s: i64) -> (r: Vec3)
        requires
            s != 0,
            self.bounded(DOT_LIMIT as int),
        ensures
            r == Vec3::spec_divs(self, s as int),
    {
        proof {
            crate::fixed::lemma_fdiv_abs(self.x as int, s as int);
            crate::fixed::lemma_fdiv_abs(self.y as int, s as int);
            crate::fixed::lemma_fdiv_abs(self.z as int, s as int);
            crate::fixed::lemma_div_abs_shrinks(self.x as int, s as int, DOT_LIMIT as int);
            crate::fixed::lemma_div_abs_shrinks(self.y as int, s as int, DOT_LIMIT as int);
            crate::fixed::lemma_div_abs_shrinks(self.z as int, s as int, DOT_LIMIT as int);
        }
        Vec3 { x: div_fixed(self.x, s), y: div_fixed(self.y, s), z: div_fixed(self.z, s) }
    }

    pub fn add_assign(&mut self, other: Vec3)
        requires
            i64::MIN <= old(self).x + other.x <= i64::MAX,
            i64::MIN <= old(self).y + other.y <= i64::MAX,
            i64::MIN <= old(self).z + other.z <= i64::MAX,
        ensures
            *final(self) == Vec3::spec_add(*old(self), other),
    {
        *self = Vec3 { x: self.x + other.x, y: self.y + other.y, z: self.z + other.z };
    }

    pub fn mul_assign(&mut self, s: i64)
        requires
            old(self).bounded(DOT_LIMIT as int),
            -DOT_LIMIT <= s <= DOT_LIMIT,
        ensures
            *final(self) == Vec3::spec_scale(*old(self), s as int),
    {
        *self = self.scale(s);
    }

    pub fn div_assign(&mut self, s: i64)
        requires
            s != 0,
            old(self).bounded(DOT_LIMIT as int),
        ensures
            *final(self) == Vec3::spec_divs(*old(self), s as int),
    {
        *self = self.div(s);
    }

    pub fn dot(v1: Vec3, v2: Vec3) -> (r: i64)
        requires
            v1.bounded(DOT_LIMIT as int),
            v2.bounded(DOT_LIMIT as int),
        ensures
            r == Vec3::spec_dot(v1, v2),
    {
        proof {
            lemma_fmul_range(v1.x as int, v2.x as int, DOT_LIMIT as int, DOT_LIMIT as int);
            lemma_fmul_range(v1.y as int, v2.y as int, DOT_LIMIT as int, DOT_LIMIT as int);
            lemma_fmul_range(v1.z as int, v2.z as int, DOT_LIMIT as int, DOT_LIMIT as int);
        }
        mul_fixed(v1.x, v2.x) + mul_fixed(v1.y, v2.y) + mul_fixed(v1.z, v2.z)
    }

    pub fn cross(v1: Vec3, v2: Vec3) -> (r: Vec3)
        requires
            v1.bounded(DOT_LIMIT as int),
            v2.bounded(DOT_LIMIT as int),
        ensures
            r == Vec3::spec_cross(v1, v2),
    {
        proof {
            lemma_fmul_range(v1.y as int, v2.z as int, DOT_LIMIT as int, DOT_LIMIT as int);
            lemma_fmul_range(v1.z as int, v2.y as int, DOT_LIMIT as int, DOT_LIMIT as int);
            lemma_fmul_range(v1.z as int, v2.x as int, DOT_LIMIT as int, DOT_LIMIT as int);
            lemma_fmul_range(v1.x as int, v2.z as int, DOT_LIMIT as int, DOT_LIMIT as int);
            lemma_fmul_range(v1.x as int, v2.y as int, DOT_LIMIT as int, DOT_LIMIT as int);
            lemma_fmul_range(v1.y as int, v2.x as int, DOT_LIMIT as int, DOT_LIMIT as int);
        }
        Vec3 {
            x: mul_fixed(v1.y, v2.z) - mul_fixed(v1.z, v2.y),
            y: mul_fixed(v1.z, v2.x) - mul_fixed(v1.x, v2.z),
            z: mul_fixed(v1.x, v2.y) - mul_fixed(v1.y, v2.x),
        }
    }

    pub fn length_squared(&self) -> (r: i64)
        requires
            self.bounded(DOT_LIMIT as int),
        ensures
            r == Vec3::spec_dot(*self, *self),
            0 <= r,
    {
        proof {
            lemma_fmul_self_nonneg(self.x as int);
            lemma_fmul_self_nonneg(self.y as int);
            lemma_fmul_self_nonneg(self.z as int);
        }
        Vec3::dot(*self, *self)
    }

    pub fn length(&self) -> (r: i64)
        requires
            self.bounded(DOT_LIMIT as int),
        ensures
            r == Vec3::spec_len(*self),
            0 <= r,
    {
        sqrt_fixed(self.length_squared())
    }

    pub fn unit_vector(&self) -> (r: Vec3)
        requires
            self.bounded(DOT_LIMIT as int),
            Vec3::spec_len(*self) > 0,
        ensures
            r == Vec3::spec_unit(*self),
    {
        let len = self.length();
        proof {
            crate::fixed::lemma_fdiv_abs(self.x as int, len as int);
            crate::fixed::lemma_fdiv_abs(self.y as int, len as int);
            crate::fixed::lemma_fdiv_abs(self.z as int, len as int);
            crate::fixed::lemma_div_abs_shrinks(self.x as int, len as int, DOT_LIMIT as int);
            crate::fixed::lemma_div_abs_shrinks(self.y as int, len as int, DOT_LIMIT as int);
            crate::fixed::lemma_div_abs_shrinks(self.z as int, len as int, DOT_LIMIT as int);
        }
        Vec3 {
            x: div_fixed(self.x, len),
            y: div_fixed(self.y, len),
            z: div_fixed(self.z, len),
        }
    }

    /// Runtime check of the `bounded` predicate.
    pub fn is_bounded(&self, b: i64) -> (r: bool)
        requires
            0 <= b,
        ensures
            r == self.bounded(b as int),
    {
        -b <= self.x && self.x <= b && -b <= self.y && self.y <= b && -b <= self.z && self.z <= b
    }

    /// Runtime check of well-formedness.
    pub fn is_wf(&self) -> (r: bool)
        ensures
            r == self.wf(),
    {
        self.is_bounded(COORD_LIMIT)
    }

    /// True exactly when the vector vanishes at this resolution.
    pub fn near_zero(&self) -> (r: bool)
        ensures
            r == (self.x == 0 && self.y == 0 && self.z == 0),
    {
        self.x == 0 && self.y == 0 && self.z == 0
    }

    pub fn reflect(v: Vec3, n: Vec3) -> (r: Vec3)
        requires
            v.bounded(UNIT_LIMIT as int),
            n.bounded(UNIT_LIMIT as int),
        ensures
            r == Vec3::spec_reflect(v, n),
            r.bounded(400_000_000int),
    {
        proof {
            lemma_fmul_range(v.x as int, n.x as int, UNIT_LIMIT as int, UNIT_LIMIT as int);
            lemma_fmul_range(v.y as int, n.y as int, UNIT_LIMIT as int, UNIT_LIMIT as int);
            lemma_fmul_range(v.z as int, n.z as int, UNIT_LIMIT as int, UNIT_LIMIT as int);
        }
        let d2 = 2 * Vec3::dot(v, n);
        proof {
            lemma_fmul_range(n.x as int, d2 as int, UNIT_LIMIT as int, 96_000_000int);
            lemma_fmul_range(n.y as int, d2 as int, UNIT_LIMIT as int, 96_000_000int);
            lemma_fmul_range(n.z as int, d2 as int, UNIT_LIMIT as int, 96_000_000int);
        }
        v.sub(n.scale(d2))
    }

    /// Refraction of `uv` at a surface with normal `n` under the given ratio
    /// of refraction indices: the perpendicular part is the scaled sum, the
    /// parallel part restores unit length as far as the resolution allows.
    pub open spec fn spec_refract(uv: Vec3, n: Vec3, ratio: int) -> Vec3 {
        let d = Vec3::spec_dot(Vec3::spec_neg(uv), n);
        let cos = if d > SCALE {
            SCALE as int
        } else {
            d
        };
        let perp = Vec3::spec_scale(Vec3::spec_add(uv, Vec3::spec_scale(n, cos)), ratio);
        let k = SCALE - Vec3::spec_dot(perp, perp);
        let k0 = if k < 0 {
            0
        } else {
            k
        };
        Vec3::spec_add(perp, Vec3::spec_scale(n, -fsqrt(k0)))
    }

    pub fn refract(uv: Vec3, n: Vec3, etai_over_etat: i64) -> (r: Vec3)
        requires
            uv.bounded(UNIT_LIMIT as int),
            n.bounded(UNIT_LIMIT as int),
            0 < etai_over_etat <= 10 * SCALE,
        ensures
            r == Vec3::spec_refract(uv, n, etai_over_etat as int),
            r.bounded(3_000_000_000int),
    {
        proof {
            lemma_fmul_range(-(uv.x as int), n.x as int, UNIT_LIMIT as int, UNIT_LIMIT as int);
            lemma_fmul_range(-(uv.y as int), n.y as int, UNIT_LIMIT as int, UNIT_LIMIT as int);
            lemma_fmul_range(-(uv.z as int), n.z as int, UNIT_LIMIT as int, UNIT_LIMIT as int);
        }
        let dd = Vec3::dot(uv.neg(), n);
        let cos = if dd > SCALE {
            SCALE
        } else {
            dd
        };
        proof {
            lemma_fmul_range(n.x as int, cos as int, UNIT_LIMIT as int, 48_000_000int);
            lemma_fmul_range(n.y as int, cos as int, UNIT_LIMIT as int, 48_000_000int);
            lemma_fmul_range(n.z as int, cos as int, UNIT_LIMIT as int, 48_000_000int);
        }
        let summed = uv.add(n.scale(cos));
        proof {
            lemma_fmul_range(summed.x as int, etai_over_etat as int, 200_000_000int,
                10_000_000int);
            lemma_fmul_range(summed.y as int, etai_over_etat as int, 200_000_000int,
                10_000_000int);
            lemma_fmul_range(summed.z as int, etai_over_etat as int, 200_000_000int,
                10_000_000int);
        }
        let perp = summed.scale(etai_over_etat);
        let k = SCALE - perp.length_squared();
        let k0 = if k < 0 {
            0
        } else {
            k
        };
        let sq = sqrt_fixed(k0);
        proof {
            crate::fixed::lemma_fsqrt_upper(k0 as int, 1_000_001int);
            lemma_fmul_range(n.x as int, -sq as int, UNIT_LIMIT as int, 1_000_001int);
            lemma_fmul_range(n.y as int, -sq as int, UNIT_LIMIT as int, 1_000_001int);
            lemma_fmul_range(n.z as int, -sq as int, UNIT_LIMIT as int, 1_000_001int);
        }
        perp.add(n.scale(-sq))
    }

    /// A vector with three independent draws in `[0, 1)`.
    pub fn random_vec3() -> (r: Vec3)
        ensures
            r.bounded(SCALE as int),
            0 <= r.x < SCALE && 0 <= r.y < SCALE && 0 <= r.z < SCALE,
    {
        Vec3 {
            x: crate::rng::random_scalar(),
            y: crate::rng::random_scalar(),
            z: crate::rng::random_scalar(),
        }
    }

    /// A vector with three independent draws in `[min, max)`; an empty range
    /// yields the vector of `min` itself.
    pub fn random_range_vec3(min: i64, max: i64) -> (r: Vec3)
        requires
            min <= max,
            max as int - min as int <= i64::MAX as int,
        ensures
            min <= r.x <= max && min <= r.y <= max && min <= r.z <= max,
            min < max ==> r.x < max && r.y < max && r.z < max,
            min == max ==> r == (Vec3 { x: min, y: min, z: min }),
    {
        Vec3 {
            x: crate::rng::random_range_scalar(min, max),
            y: crate::rng::random_range_scalar(min, max),
            z: crate::rng::random_range_scalar(min, max),
        }
    }

    /// Rejection-samples a point strictly inside the unit ball. A degenerate
    /// streak of rejected draws falls back to the center, which also lies in
    /// the ball.
    pub fn random_in_unit_sphere() -> (r: Vec3)
        ensures
            r.bounded(SCALE as int),
            Vec3::spec_dot(r, r) < SCALE,
    {
        let mut i: u32 = 0;
        while i < 64
            invariant
                i <= 64,
            decreases 64 - i,
        {
            let p = Vec3::random_range_vec3(-SCALE, SCALE);
            if p.length_squared() < SCALE {
                return p;
            }
            i = i + 1;
        }
        Vec3 { x: 0, y: 0, z: 0 }
    }

    /// Rejection-samples a point strictly inside the unit disk of the
    /// `x`-`y` plane. A degenerate streak of rejected draws falls back to the
    /// center, which also lies in the disk.
    pub fn random_in_unit_disk() -> (r: Vec3)
        ensures
            r.bounded(SCALE as int),
            Vec3::spec_dot(r, r) < SCALE,
            r.z == 0,
    {
        let mut i: u32 = 0;
        while i < 64
            invariant
                i <= 64,
            decreases 64 - i,
        {
            let p = Vec3 {
                x: crate::rng::random_range_scalar(-SCALE, SCALE),
                y: crate::rng::random_range_scalar(-SCALE, SCALE),
                z: 0,
            };
            if p.length_squared() < SCALE {
                return p;
            }
            i = i + 1;
        }
        Vec3 { x: 0, y: 0, z: 0 }
    }

    /// A random direction of roughly unit length: the normalization of some
    /// ball sample long enough to normalize at this resolution. A degenerate
    /// streak of draws falls back to a fixed axis direction, itself the
    /// normalization of such a sample.
    pub fn random_unit_vector() -> (r: Vec3)
        ensures
            r.bounded(2 * SCALE as int),
            SCALE - 18 < Vec3::spec_dot(r, r) < SCALE + 400,
            exists|p: Vec3|
                #![trigger Vec3::spec_unit(p)]
                p.bounded(SCALE as int) && DIR_FLOOR <= Vec3::spec_dot(p, p) < SCALE && r
                    == Vec3::spec_unit(p),
    {
        let mut i: u32 = 0;
        while i < 64
            invariant
                i <= 64,
            decreases 64 - i,
        {
            let p = Vec3::random_in_unit_sphere();
            if p.length_squared() >= DIR_FLOOR {
                proof {
                    lemma_unit_component_bound(p);
                }
                let r = p.unit_vector();
                proof {
                    assert(r == Vec3::spec_unit(p));
                    lemma_unit_near_unit(p);
                }
                return r;
            }
            i = i + 1;
        }
        let fallback = Vec3 { x: SCALE, y: 0, z: 0 };
        proof {
            lemma_axis_fallback_is_normalized();
            crate::fixed::lemma_fmul_identity(SCALE as int);
            crate::fixed::lemma_fmul_identity(0int);
            assert(Vec3::spec_dot(fallback, fallback) == SCALE);
        }
        fallback
    }
}

/// Components of the normalized form of a usable direction stay within twice
/// the unit scale, and such a direction has a positive length.
pub proof fn lemma_unit_component_bound(v: Vec3)
    requires
        v.bounded(COORD_LIMIT as int),
        Vec3::spec_dot(v, v) >= DIR_FLOOR,
    ensures
        Vec3::spec_len(v) >= 100_000,
        Vec3::spec_unit(v).bounded(2 * SCALE as int),
        abs_int(fdiv(v.x as int, Vec3::spec_len(v))) <= 2 * SCALE,
        abs_int(fdiv(v.y as int, Vec3::spec_len(v))) <= 2 * SCALE,
        abs_int(fdiv(v.z as int, Vec3::spec_len(v))) <= 2 * SCALE,
{
    let s = SCALE as int;
    let lsq = Vec3::spec_dot(v, v);
    let len = Vec3::spec_len(v);
    crate::fixed::lemma_isqrt_spec_bounds((lsq * s) as nat);
    assert(lsq * s >= 10_000 * s) by (nonlinear_arith)
        requires lsq >= 10_000, s == 1_000_000,
    ;
    assert(len * len <= lsq * s);
    assert(lsq * s < (len + 1) * (len + 1));
    assert(len >= 100_000) by (nonlinear_arith)
        requires len >= 0, (len + 1) * (len + 1) > 10_000_000_000int,
    ;
    lemma_unit_axis_bound(v.x as int, v.y as int, v.z as int, lsq, len);
    lemma_unit_axis_bound(v.y as int, v.x as int, v.z as int, lsq, len);
    lemma_unit_axis_bound(v.z as int, v.x as int, v.y as int, lsq, len);
}

/// One axis of the normalization bound: if `x` contributes to a squared
/// length `lsq` whose root is `len >= 100_000`, then `x * SCALE / len` has
/// magnitude at most `2 * SCALE`.
proof fn lemma_unit_axis_bound(x: int, y: int, z: int, lsq: int, len: int)
    requires
        lsq == fmul(x, x) + fmul(y, y) + fmul(z, z),
        len * len <= lsq * (SCALE as int),
        lsq * (SCALE as int) < (len + 1) * (len + 1),
        len >= 100_000,
    ensures
        abs_int(fdiv(x, len)) <= 2 * SCALE,
{
    let s = SCALE as int;
    lemma_fmul_self_nonneg(y);
    lemma_fmul_self_nonneg(z);
    assert(fmul(x, x) <= lsq);
    // x * x < (fmul(x, x) + 1) * SCALE
    crate::fixed::lemma_div_trunc_abs(x * x, s);
    assert(abs_int(x * x) == x * x) by (nonlinear_arith);
    vstd::arithmetic::div_mod::lemma_fundamental_div_mod(x * x, s);
    vstd::arithmetic::div_mod::lemma_mod_division_less_than_divisor(x * x, s);
    assert(x * x < (fmul(x, x) + 1) * s) by (nonlinear_arith)
        requires
            x * x == s * ((x * x) / s) + (x * x) % s,
            (x * x) % s < s,
            fmul(x, x) == (x * x) / s,
    ;
    assert(x * x < lsq * s + s) by (nonlinear_arith)
        requires x * x < (fmul(x, x) + 1) * s, fmul(x, x) <= lsq, s > 0,
    ;
    assert(x * x < (len + 1) * (len + 1) + s);
    // with len >= 100_000 this gives |x| <= 2 * len
    assert(abs_int(x) <= 2 * len) by (nonlinear_arith)
        requires
            x * x < (len + 1) * (len + 1) + 1_000_000,
            len >= 100_000,
            s == 1_000_000,
    ;
    crate::fixed::lemma_div_trunc_abs(x * s, len);
    assert(abs_int(x * s) == abs_int(x) * s) by (nonlinear_arith)
        requires s > 0,
    ;
    assert(abs_int(x) * s <= (2 * len) * s) by (nonlinear_arith)
        requires abs_int(x) <= 2 * len, s > 0,
    ;
    vstd::arithmetic::div_mod::lemma_div_is_ordered(abs_int(x) * s, 2 * len * s, len);
    assert((2 * len * s) / len == 2 * s) by {
        vstd::arithmetic::div_mod::lemma_div_by_multiple(2 * s, len);
        assert(2 * len * s == (2 * s) * len) by (nonlinear_arith);
    }
}

/// Per-axis upper half of the normalization error bound: the squared
/// normalized component, scaled by the squared length, stays below the
/// squared scale times one more than the component's squared contribution.
proof fn lemma_unit_axis_sq_upper(x: int, len: int)
    requires
        1 <= len,
    ensures
        (len * len) * fmul(fdiv(x, len), fdiv(x, len)) < (SCALE as int) * (SCALE as int) * (
        fmul(x, x) + 1),
{
    let s = SCALE as int;
    let a = abs_int(x);
    let q = (a * s) / len;
    crate::fixed::lemma_abs_mul_pos(x, s);
    crate::fixed::lemma_div_trunc_abs(x * s, len);
    let u = fdiv(x, len);
    crate::fixed::lemma_abs_mul_pos(u, s);
    assert(u * u == q * q);
    vstd::arithmetic::div_mod::lemma_fundamental_div_mod(a * s, len);
    vstd::arithmetic::div_mod::lemma_mod_division_less_than_divisor(a * s, len);
    vstd::arithmetic::div_mod::lemma_div_pos_is_pos(a * s, len);
    assert(len * q <= a * s);
    assert((len * q) * (len * q) <= (a * s) * (a * s)) by (nonlinear_arith)
        requires 0 <= len * q <= a * s,
    ;
    let d = fmul(u, u);
    crate::fixed::lemma_div_trunc_nonneg(u * u, s);
    vstd::arithmetic::div_mod::lemma_fundamental_div_mod(q * q, s);
    vstd::arithmetic::div_mod::lemma_mod_division_less_than_divisor(q * q, s);
    assert(s * d <= q * q);
    let xd = fmul(x, x);
    crate::fixed::lemma_div_trunc_nonneg(x * x, s);
    assert(x * x == a * a);
    vstd::arithmetic::div_mod::lemma_fundamental_div_mod(a * a, s);
    vstd::arithmetic::div_mod::lemma_mod_division_less_than_divisor(a * a, s);
    assert(a * a < s * (xd + 1));
    assert((len * len) * d < s * s * (xd + 1)) by (nonlinear_arith)
        requires
            s * d <= q * q,
            (len * q) * (len * q) <= (a * s) * (a * s),
            a * a < s * (xd + 1),
            0 <= q,
            0 <= a,
            0 <= d,
            1 <= len,
            s == 1_000_000,
    ;
}

/// Per-axis lower half of the normalization error bound.
proof fn lemma_unit_axis_sq_lower(x: int, len: int)
    requires
        1 <= len,
        abs_int(fdiv(x, len)) <= 2 * SCALE,
    ensures
        (SCALE as int) * (SCALE as int) * fmul(x, x) < (len * len) * (fmul(fdiv(x, len),
        fdiv(x, len)) + 6),
{
    let s = SCALE as int;
    let a = abs_int(x);
    let q = (a * s) / len;
    crate::fixed::lemma_abs_mul_pos(x, s);
    crate::fixed::lemma_div_trunc_abs(x * s, len);
    let u = fdiv(x, len);
    crate::fixed::lemma_abs_mul_pos(u, s);
    assert(u * u == q * q);
    vstd::arithmetic::div_mod::lemma_fundamental_div_mod(a * s, len);
    vstd::arithmetic::div_mod::lemma_mod_division_less_than_divisor(a * s, len);
    vstd::arithmetic::div_mod::lemma_div_pos_is_pos(a * s, len);
    assert(len * (q + 1) == len * q + len) by (nonlinear_arith);
    assert(a * s < len * (q + 1));
    assert((a * s) * (a * s) < (len * (q + 1)) * (len * (q + 1))) by (nonlinear_arith)
        requires 0 <= a * s, a * s < len * (q + 1),
    ;
    let d = fmul(u, u);
    crate::fixed::lemma_div_trunc_nonneg(u * u, s);
    vstd::arithmetic::div_mod::lemma_fundamental_div_mod(q * q, s);
    vstd::arithmetic::div_mod::lemma_mod_division_less_than_divisor(q * q, s);
    assert(q * q < s * (d + 1));
    let xd = fmul(x, x);
    crate::fixed::lemma_div_trunc_nonneg(x * x, s);
    assert(x * x == a * a);
    vstd::arithmetic::div_mod::lemma_fundamental_div_mod(a * a, s);
    vstd::arithmetic::div_mod::lemma_div_pos_is_pos(a * a, s);
    assert(s * xd <= a * a);
    assert(s * s * xd < (len * len) * (d + 6)) by (nonlinear_arith)
        requires
            s * xd <= a * a,
            (a * s) * (a * s) < (len * (q + 1)) * (len * (q + 1)),
            q * q < s * (d + 1),
            0 <= q <= 2 * s,
            0 <= a,
            0 <= d,
            1 <= len,
            s == 1_000_000,
    ;
}

/// Normalizing a usable direction yields a vector of near-unit squared
/// length: the fixed-point inner product of the unit vector with itself lies
/// within a few hundred millionths of one.
pub proof fn lemma_unit_near_unit(v: Vec3)
    requires
        v.bounded(COORD_LIMIT as int),
        Vec3::spec_dot(v, v) >= DIR_FLOOR,
    ensures
        SCALE - 18 < Vec3::spec_dot(Vec3::spec_unit(v), Vec3::spec_unit(v)) < SCALE + 400,
{
    let s = SCALE as int;
    let lsq = Vec3::spec_dot(v, v);
    let len = Vec3::spec_len(v);
    lemma_unit_component_bound(v);
    crate::fixed::lemma_isqrt_spec_bounds((lsq * s) as nat);
    assert(0 <= lsq * s) by (nonlinear_arith)
        requires lsq >= 0, s > 0,
    ;
    assert(len * len <= lsq * s);
    assert(lsq * s < (len + 1) * (len + 1));
    let ux = fdiv(v.x as int, len);
    let uy = fdiv(v.y as int, len);
    let uz = fdiv(v.z as int, len);
    let dx = fmul(ux, ux);
    let dy = fmul(uy, uy);
    let dz = fmul(uz, uz);
    lemma_unit_axis_sq_upper(v.x as int, len);
    lemma_unit_axis_sq_upper(v.y as int, len);
    lemma_unit_axis_sq_upper(v.z as int, len);
    lemma_unit_axis_sq_lower(v.x as int, len);
    lemma_unit_axis_sq_lower(v.y as int, len);
    lemma_unit_axis_sq_lower(v.z as int, len);
    let xdx = fmul(v.x as int, v.x as int);
    let xdy = fmul(v.y as int, v.y as int);
    let xdz = fmul(v.z as int, v.z as int);
    assert(lsq == xdx + xdy + xdz);
    let d = dx + dy + dz;
    // the unit vector's components are exactly these quotients
    assert(Vec3::spec_dot(Vec3::spec_unit(v), Vec3::spec_unit(v)) == d);
    assert((len * len) * d < s * s * (lsq + 3)) by (nonlinear_arith)
        requires
            (len * len) * dx < s * s * (xdx + 1),
            (len * len) * dy < s * s * (xdy + 1),
            (len * len) * dz < s * s * (xdz + 1),
            lsq == xdx + xdy + xdz,
            d == dx + dy + dz,
    ;
    assert(s * s * lsq < (len * len) * (d + 18)) by (nonlinear_arith)
        requires
            s * s * xdx < (len * len) * (dx + 6),
            s * s * xdy < (len * len) * (dy + 6),
            s * s * xdz < (len * len) * (dz + 6),
            lsq == xdx + xdy + xdz,
            d == dx + dy + dz,
    ;
    // upper: a squared length of S + 400 or more contradicts the bounds
    assert(d < s + 400) by (nonlinear_arith)
        requires
            (len * len) * d < s * s * (lsq + 3),
            lsq * s < (len + 1) * (len + 1),
            len >= 100_000,
            s == 1_000_000,
    ;
    // lower: a squared length of S - 18 or less contradicts the bounds
    assert(d > s - 18) by (nonlinear_arith)
        requires
            s * s * lsq < (len * len) * (d + 18),
            len * len <= lsq * s,
            len >= 100_000,
            s == 1_000_000,
    ;
}

/// The fixed fallback direction is itself the normalization of a half-unit
/// axis sample: halving leaves the direction, and the sample's squared
/// length of one quarter is well above the resolution floor.
proof fn lemma_axis_fallback_is_normalized()
    ensures
        exists|p: Vec3|
            #![trigger Vec3::spec_unit(p)]
            p.bounded(SCALE as int) && DIR_FLOOR <= Vec3::spec_dot(p, p) < SCALE && (Vec3 {
                x: SCALE,
                y: 0i64,
                z: 0i64,
            }) == Vec3::spec_unit(p),
{
    let p0 = Vec3 { x: 500_000i64, y: 0i64, z: 0i64 };
    let s = SCALE as int;
    assert(500_000int * 500_000int == 250_000_000_000int) by (nonlinear_arith);
    crate::fixed::lemma_div_trunc_nonneg(250_000_000_000int, s);
    assert(fmul(500_000int, 500_000int) == 250_000);
    crate::fixed::lemma_fmul_identity(0int);
    assert(fmul(0int, 0int) == 0);
    assert(Vec3::spec_dot(p0, p0) == 250_000);
    assert(250_000int * s == 250_000_000_000int) by (nonlinear_arith)
        requires s == 1_000_000,
    ;
    assert(500_000int * 500_000int <= 250_000_000_000int
        && 250_000_000_000int < 500_001int * 500_001int) by (nonlinear_arith);
    crate::fixed::lemma_isqrt_unique(250_000_000_000nat, 500_000nat);
    assert(Vec3::spec_len(p0) == 500_000);
    assert(500_000int * s == 1_000_000int * 500_000int) by (nonlinear_arith)
        requires s == 1_000_000,
    ;
    crate::fixed::lemma_div_trunc_nonneg(500_000int * s, 500_000int);
    vstd::arithmetic::div_mod::lemma_div_by_multiple(1_000_000int, 500_000int);
    assert(fdiv(500_000int, 500_000int) == 1_000_000);
    crate::fixed::lemma_div_trunc_nonneg(0int * s, 500_000int);
    assert(0int * s == 0) by (nonlinear_arith)
        requires s == 1_000_000,
    ;
    assert(fdiv(0int, 500_000int) == 0);
    assert(Vec3::spec_unit(p0) == (Vec3 { x: SCALE, y: 0i64, z: 0i64 }));
}

/// A refraction ratio of exactly one transmits the incident direction
/// unchanged. At this resolution that holds of every downward unit direction
/// whose vertical component squares without remainder; a direction like
/// `(0, -999_999, 0)` with `999_999^2` not a multiple of the scale leaves the
/// reconstructed parallel part one step short.
pub proof fn lemma_refract_identity_at_unit_ratio(uv: Vec3)
    requires
        uv.bounded(2 * SCALE as int),
        -SCALE <= uv.y <= 0,
        Vec3::spec_dot(uv, uv) == SCALE,
        (uv.y * uv.y) % (SCALE as int) == 0,
    ensures
        Vec3::spec_refract(uv, Vec3 { x: 0, y: SCALE, z: 0 }, SCALE as int) == uv,
{
    let s = SCALE as int;
    let n = Vec3 { x: 0, y: SCALE, z: 0 };
    crate::fixed::lemma_fmul_identity(-(uv.x as int));
    crate::fixed::lemma_fmul_identity(-(uv.y as int));
    crate::fixed::lemma_fmul_identity(-(uv.z as int));
    crate::fixed::lemma_fmul_identity(uv.x as int);
    crate::fixed::lemma_fmul_identity(uv.y as int);
    crate::fixed::lemma_fmul_identity(uv.z as int);
    assert(Vec3::spec_dot(Vec3::spec_neg(uv), n) == -(uv.y as int));
    // the perpendicular part: the vertical component cancels exactly
    crate::fixed::lemma_fmul_identity(0 - uv.y as int);
    let summed = Vec3::spec_add(uv, Vec3::spec_scale(n, -(uv.y as int)));
    assert(summed == (Vec3 { x: uv.x, y: 0i64, z: uv.z }));
    crate::fixed::lemma_fmul_identity(summed.x as int);
    crate::fixed::lemma_fmul_identity(summed.y as int);
    crate::fixed::lemma_fmul_identity(summed.z as int);
    let perp = Vec3::spec_scale(summed, s);
    assert(perp == summed);
    crate::fixed::lemma_fmul_identity(0int);
    assert(fmul(0int, 0int) == 0);
    assert(Vec3::spec_dot(perp, perp) == fmul(uv.x as int, uv.x as int) + fmul(
        uv.z as int, uv.z as int));
    let k = s - Vec3::spec_dot(perp, perp);
    assert(k == fmul(uv.y as int, uv.y as int));
    crate::fixed::lemma_fmul_self_nonneg(uv.y as int);
    // the parallel part: the cosine squares exactly, so the root restores it
    vstd::arithmetic::div_mod::lemma_fundamental_div_mod(uv.y as int * uv.y as int, s);
    crate::fixed::lemma_div_trunc_nonneg(uv.y as int * uv.y as int, s);
    assert(k * s == uv.y as int * uv.y as int);
    assert((-(uv.y as int)) * (-(uv.y as int)) == uv.y as int * uv.y as int) by (nonlinear_arith);
    assert((0 - uv.y as int + 1) * (0 - uv.y as int + 1) > uv.y as int * uv.y as int)
        by (nonlinear_arith)
        requires 0 <= -(uv.y as int),
    ;
    crate::fixed::lemma_isqrt_unique((k * s) as nat, (-(uv.y as int)) as nat);
    assert(fsqrt(k) == -(uv.y as int));
    crate::fixed::lemma_fmul_identity(uv.y as int);
    assert(Vec3::spec_scale(n, -fsqrt(k)) == (Vec3 { x: 0i64, y: uv.y, z: 0i64 }));
    assert(Vec3::spec_refract(uv, n, s) == uv);
}

/// Negating one argument negates the fixed-point inner product exactly.
pub proof fn lemma_dot_neg(a: Vec3, b: Vec3)
    requires
        a.bounded(DOT_LIMIT as int),
    ensures
        Vec3::spec_dot(Vec3::spec_neg(a), b) == -Vec3::spec_dot(a, b),
{
    crate::fixed::lemma_fmul_neg(a.x as int, b.x as int);
    crate::fixed::lemma_fmul_neg(a.y as int, b.y as int);
    crate::fixed::lemma_fmul_neg(a.z as int, b.z as int);
}

/// Adding and subtracting the same vector are mutually inverse on
/// well-formed vectors.
pub proof fn lemma_add_sub_cancel(v: Vec3, w: Vec3)
    requires
        v.wf(),
        w.wf(),
    ensures
        Vec3::spec_sub(Vec3::spec_add(v, w), w) == v,
        Vec3::spec_add(Vec3::spec_sub(v, w), w) == v,
{
}

/// Scaling by `s` and dividing by `s` are mutually inverse when each
/// component product is an exact multiple of the scale.
pub proof fn lemma_scale_div_cancel(v: Vec3, s: int)
    requires
        s != 0,
        (v.x * s) % (SCALE as int) == 0,
        (v.y * s) % (SCALE as int) == 0,
        (v.z * s) % (SCALE as int) == 0,
        i64::MIN <= fmul(v.x as int, s) <= i64::MAX,
        i64::MIN <= fmul(v.y as int, s) <= i64::MAX,
        i64::MIN <= fmul(v.z as int, s) <= i64::MAX,
    ensures
        Vec3::spec_divs(Vec3::spec_scale(v, s), s) == v,
{
    lemma_fixed_mul_div_cancel(v.x as int, s);
    lemma_fixed_mul_div_cancel(v.y as int, s);
    lemma_fixed_mul_div_cancel(v.z as int, s);
}

/// Dividing by `s` and scaling by `s` are mutually inverse when each scaled
/// component is an exact multiple of `s`.
pub proof fn lemma_div_scale_cancel(v: Vec3, s: int)
    requires
        s != 0,
        (v.x * SCALE) % s == 0,
        (v.y * SCALE) % s == 0,
        (v.z * SCALE) % s == 0,
        i64::MIN <= fdiv(v.x as int, s) <= i64::MAX,
        i64::MIN <= fdiv(v.y as int, s) <= i64::MAX,
        i64::MIN <= fdiv(v.z as int, s) <= i64::MAX,
    ensures
        Vec3::spec_scale(Vec3::spec_divs(v, s), s) == v,
{
    crate::fixed::lemma_fixed_div_mul_cancel(v.x as int, s);
    crate::fixed::lemma_fixed_div_mul_cancel(v.y as int, s);
    crate::fixed::lemma_fixed_div_mul_cancel(v.z as int, s);
}

} // verus!
