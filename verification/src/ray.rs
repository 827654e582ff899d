//! Rays: an origin with a direction, parameterizing `origin + t * direction`.

use vstd::prelude::*;
use crate::vec3::{Vec3, Point3, COORD_LIMIT, DOT_LIMIT};

verus! {

/// Largest parameter magnitude a ray is evaluated at.
pub const T_LIMIT: i64 = 100_000_000_000;

#[derive(Clone, Copy, Debug, PartialEq, Eq, Structural)]
pub struct Ray {
    pub origin: Point3,
    pub direction: Vec3,
}

impl Default for Ray {
    fn default() -> (r: Self)
        ensures
            r.origin == (Vec3 { x: 0, y: 0, z: 0 }),
            r.direction == (Vec3 { x: 0, y: 0, z: 0 }),
    {
        Ray { origin: Vec3 { x: 0, y: 0, z: 0 }, direction: Vec3 { x: 0, y: 0, z: 0 } }
    }
}

impl Ray {
    /// Both the origin and the direction are well-formed vectors.
    pub open spec fn wf(self) -> bool {
        self.origin.wf() && self.direction.wf()
    }

    /// The point the ray reaches at parameter `t`.
    pub open spec fn spec_at(self, t: int) -> Point3 {
        Vec3::spec_add(self.origin, Vec3::spec_scale(self.direction, t))
    }

    pub fn new(origin: Point3, direction: Vec3) -> (r: Ray)
        ensures
            r.origin == origin,
            r.direction == direction,
    {
        Ray { origin, direction }
    }

    pub fn origin(&self) -> (r: Point3)
        ensures
            r == self.origin,
    {
        self.origin
    }

    pub fn direction(&self) -> (r: Vec3)
        ensures
            r == self.direction,
    {
        self.direction
    }

    pub fn at(&self, t: i64) -> (r: Point3)
        requires
            self.wf(),
            -T_LIMIT <= t <= T_LIMIT,
        ensures
            r == self.spec_at(t as int),
    {
        proof {
            crate::fixed::lemma_fmul_range(
                self.direction.x as int, t as int, COORD_LIMIT as int, T_LIMIT as int);
            crate::fixed::lemma_fmul_range(
                self.direction.y as int, t as int, COORD_LIMIT as int, T_LIMIT as int);
            crate::fixed::lemma_fmul_range(
                self.direction.z as int, t as int, COORD_LIMIT as int, T_LIMIT as int);
        }
        self.origin.add(self.direction.scale(t))
    }
}

} // verus!
