//! The thin-lens camera: maps normalized image-plane coordinates to
//! world-space rays, with a disk-jittered origin for depth of field.
//!
//! The viewport half-height is the tangent of half the vertical field of
//! view; computing that tangent is trigonometry outside this library, so the
//! constructor takes the half-height as a fixed-point scalar.

use vstd::prelude::*;
use crate::fixed::{SCALE, fmul, fdiv, mul_fixed, div_fixed, lemma_fmul_range};
use crate::ray::Ray;
use crate::vec3::{Vec3, Point3, DIR_FLOOR, lemma_unit_component_bound};

verus! {

#[derive(Clone, Copy, Debug, PartialEq, Eq, Structural)]
pub struct Camera {
    pub origin: Point3,
    pub lower_left_corner: Point3,
    pub horizontal: Vec3,
    pub vertical: Vec3,
    pub u: Vec3,
    pub v: Vec3,
    pub w: Vec3,
    pub lens_radius: i64,
}

impl Camera {
    /// Magnitude bounds under which ray generation stays well-formed.
    pub open spec fn wf(self) -> bool {
        &&& self.origin.bounded(100_000_000int)
        &&& self.lower_left_corner.bounded(2_000_000_000int)
        &&& self.horizontal.bounded(1_000_000_000int)
        &&& self.vertical.bounded(2_000_000_000int)
        &&& self.u.bounded(2_000_000int)
        &&& self.v.bounded(8_000_000int)
        &&& self.w.bounded(2_000_000int)
        &&& 0 <= self.lens_radius <= 5_000_000
    }

    /// The fields a camera is built with, stated exactly: an orthonormal-by-
    /// construction basis from the view directions, a viewport scaled by the
    /// focus distance, and a lens radius of half the aperture.
    pub open spec fn spec_new(
        lookfrom: Point3,
        lookat: Point3,
        vup: Vec3,
        half_height: i64,
        aspect_ratio: i64,
        aperture: i64,
        focus_dist: i64,
    ) -> Camera {
        let w = Vec3::spec_unit(Vec3::spec_sub(lookfrom, lookat));
        let u = Vec3::spec_unit(Vec3::spec_cross(vup, w));
        let v = Vec3::spec_cross(w, u);
        let viewport_height = 2 * half_height;
        let viewport_width = fmul(aspect_ratio as int, viewport_height as int);
        let horizontal = Vec3::spec_scale(u, fmul(focus_dist as int, viewport_width));
        let vertical = Vec3::spec_scale(v, fmul(focus_dist as int, viewport_height as int));
        let half_h = Vec3::spec_divs(horizontal, 2 * SCALE as int);
        let half_v = Vec3::spec_divs(vertical, 2 * SCALE as int);
        let lower_left_corner = Vec3::spec_sub(
            Vec3::spec_sub(Vec3::spec_sub(lookfrom, half_h), half_v),
            Vec3::spec_scale(w, focus_dist as int),
        );
        Camera {
            origin: lookfrom,
            lower_left_corner,
            horizontal,
            vertical,
            u,
            v,
            w,
            lens_radius: fdiv(aperture as int, 2 * SCALE as int) as i64,
        }
    }

    #[verifier::rlimit(100)]
    #[verifier::spinoff_prover]
    pub fn new(
        lookfrom: Point3,
        lookat: Point3,
        vup: Vec3,
        half_height: i64,
        aspect_ratio: i64,
        aperture: i64,
        focus_dist: i64,
    ) -> (c: Camera)
        requires
            lookfrom.bounded(100_000_000int),
            lookat.bounded(100_000_000int),
            vup.bounded(10_000_000int),
            0 < half_height <= 10_000_000,
            0 < aspect_ratio <= 10_000_000,
            fmul(aspect_ratio as int, 2 * half_height as int) <= 20_000_000,
            0 <= aperture <= 10_000_000,
            0 < focus_dist <= 10_000_000,
            Vec3::spec_dot(Vec3::spec_sub(lookfrom, lookat),
                Vec3::spec_sub(lookfrom, lookat)) >= DIR_FLOOR,
            ({
                let w = Vec3::spec_unit(Vec3::spec_sub(lookfrom, lookat));
                Vec3::spec_dot(Vec3::spec_cross(vup, w), Vec3::spec_cross(vup, w)) >= DIR_FLOOR
            }),
        ensures
            c == Camera::spec_new(lookfrom, lookat, vup, half_height, aspect_ratio, aperture,
                focus_dist),
            c.wf(),
    {
        let gaze = lookfrom.sub(lookat);
        proof {
            lemma_unit_component_bound(gaze);
        }
        let w = gaze.unit_vector();
        let uc = Vec3::cross(vup, w);
        proof {
            lemma_fmul_range(vup.x as int, w.x as int, 10_000_000int, 2_000_000int);
            lemma_fmul_range(vup.y as int, w.y as int, 10_000_000int, 2_000_000int);
            lemma_fmul_range(vup.z as int, w.z as int, 10_000_000int, 2_000_000int);
            lemma_fmul_range(vup.x as int, w.y as int, 10_000_000int, 2_000_000int);
            lemma_fmul_range(vup.y as int, w.z as int, 10_000_000int, 2_000_000int);
            lemma_fmul_range(vup.z as int, w.x as int, 10_000_000int, 2_000_000int);
            lemma_fmul_range(vup.x as int, w.z as int, 10_000_000int, 2_000_000int);
            lemma_fmul_range(vup.y as int, w.x as int, 10_000_000int, 2_000_000int);
            lemma_fmul_range(vup.z as int, w.y as int, 10_000_000int, 2_000_000int);
            lemma_unit_component_bound(uc);
        }
        let u = uc.unit_vector();
        let v = Vec3::cross(w, u);
        proof {
            lemma_fmul_range(w.x as int, u.x as int, 2_000_000int, 2_000_000int);
            lemma_fmul_range(w.y as int, u.y as int, 2_000_000int, 2_000_000int);
            lemma_fmul_range(w.z as int, u.z as int, 2_000_000int, 2_000_000int);
            lemma_fmul_range(w.x as int, u.y as int, 2_000_000int, 2_000_000int);
            lemma_fmul_range(w.y as int, u.z as int, 2_000_000int, 2_000_000int);
            lemma_fmul_range(w.z as int, u.x as int, 2_000_000int, 2_000_000int);
            lemma_fmul_range(w.x as int, u.z as int, 2_000_000int, 2_000_000int);
            lemma_fmul_range(w.y as int, u.x as int, 2_000_000int, 2_000_000int);
            lemma_fmul_range(w.z as int, u.y as int, 2_000_000int, 2_000_000int);
        }
        let viewport_height = 2 * half_height;
        proof {
            lemma_fmul_range(aspect_ratio as int, viewport_height as int, 10_000_000int,
                20_000_000int);
            lemma_fmul_range(focus_dist as int, fmul(aspect_ratio as int, viewport_height as int),
                10_000_000int, 20_000_000int);
            lemma_fmul_range(focus_dist as int, viewport_height as int, 10_000_000int,
                20_000_000int);
        }
        let viewport_width = mul_fixed(aspect_ratio, viewport_height);
        let s_h = mul_fixed(focus_dist, viewport_width);
        let s_v = mul_fixed(focus_dist, viewport_height);
        proof {
            lemma_fmul_range(u.x as int, s_h as int, 2_000_000int, 200_000_000int);
            lemma_fmul_range(u.y as int, s_h as int, 2_000_000int, 200_000_000int);
            lemma_fmul_range(u.z as int, s_h as int, 2_000_000int, 200_000_000int);
            lemma_fmul_range(v.x as int, s_v as int, 8_000_000int, 200_000_000int);
            lemma_fmul_range(v.y as int, s_v as int, 8_000_000int, 200_000_000int);
            lemma_fmul_range(v.z as int, s_v as int, 8_000_000int, 200_000_000int);
            lemma_fmul_range(w.x as int, focus_dist as int, 2_000_000int, 10_000_000int);
            lemma_fmul_range(w.y as int, focus_dist as int, 2_000_000int, 10_000_000int);
            lemma_fmul_range(w.z as int, focus_dist as int, 2_000_000int, 10_000_000int);
            crate::fixed::lemma_div_abs_shrinks(aperture as int, 2 * SCALE as int,
                10_000_000int);
            crate::fixed::lemma_fdiv_range(aperture as int, 2 * SCALE as int, 10_000_000int,
                2_000_000int);
        }
        let horizontal = u.scale(s_h);
        let vertical = v.scale(s_v);
        proof {
            crate::fixed::lemma_fdiv_range(horizontal.x as int, 2 * SCALE as int,
                400_000_000int, 2_000_000int);
            crate::fixed::lemma_fdiv_range(horizontal.y as int, 2 * SCALE as int,
                400_000_000int, 2_000_000int);
            crate::fixed::lemma_fdiv_range(horizontal.z as int, 2 * SCALE as int,
                400_000_000int, 2_000_000int);
            crate::fixed::lemma_fdiv_range(vertical.x as int, 2 * SCALE as int,
                1_600_000_000int, 2_000_000int);
            crate::fixed::lemma_fdiv_range(vertical.y as int, 2 * SCALE as int,
                1_600_000_000int, 2_000_000int);
            crate::fixed::lemma_fdiv_range(vertical.z as int, 2 * SCALE as int,
                1_600_000_000int, 2_000_000int);
        }
        let lower_left_corner = lookfrom
            .sub(horizontal.div(2 * SCALE))
            .sub(vertical.div(2 * SCALE))
            .sub(w.scale(focus_dist));
        let lens_radius = div_fixed(aperture, 2 * SCALE);
        proof {
            assert(0 <= fdiv(aperture as int, 2 * SCALE as int)) by {
                if aperture > 0 {
                    crate::fixed::lemma_fdiv_pos_lower(aperture as int, 2 * SCALE as int,
                        2_000_000int);
                }
            }
        }
        Camera {
            origin: lookfrom,
            lower_left_corner,
            horizontal,
            vertical,
            u,
            v,
            w,
            lens_radius,
        }
    }

    /// The direction of the image-plane ray for normalized coordinates.
    pub open spec fn spec_ray_direction(self, s: int, t: int, jittered_origin: Vec3) -> Vec3 {
        Vec3::spec_sub(
            Vec3::spec_add(
                Vec3::spec_add(self.lower_left_corner, Vec3::spec_scale(self.horizontal, s)),
                Vec3::spec_scale(self.vertical, t),
            ),
            jittered_origin,
        )
    }

    /// Maps normalized image-plane coordinates to a world-space ray. The
    /// origin is jittered on the lens disk and stays within ten lens radii of
    /// the eye; the direction always aims at the image-plane point from the
    /// jittered origin, and with a zero aperture the ray is the exact pinhole
    /// ray.
    #[verifier::rlimit(100)]
    pub fn get_ray(&self, s: i64, t: i64) -> (r: Ray)
        requires
            self.wf(),
            0 <= s <= 2 * SCALE,
            0 <= t <= 2 * SCALE,
        ensures
            r.wf(),
            r.direction == self.spec_ray_direction(s as int, t as int, r.origin),
            Vec3::spec_sub(r.origin, self.origin).bounded(10 * self.lens_radius as int),
            self.lens_radius == 0 ==> r.origin == self.origin && r.direction
                == self.spec_ray_direction(s as int, t as int, self.origin),
    {
        let disk = Vec3::random_in_unit_disk();
        proof {
            lemma_fmul_range(disk.x as int, self.lens_radius as int, SCALE as int, 5_000_000int);
            lemma_fmul_range(disk.y as int, self.lens_radius as int, SCALE as int, 5_000_000int);
            lemma_fmul_range(disk.z as int, self.lens_radius as int, SCALE as int, 5_000_000int);
            crate::fixed::lemma_fmul_linear_bound(disk.x as int, self.lens_radius as int, 1int,
                self.lens_radius as int);
            crate::fixed::lemma_fmul_linear_bound(disk.y as int, self.lens_radius as int, 1int,
                self.lens_radius as int);
        }
        let rd = disk.scale(self.lens_radius);
        proof {
            lemma_fmul_range(self.u.x as int, rd.x as int, 2_000_000int, 5_000_000int);
            lemma_fmul_range(self.u.y as int, rd.x as int, 2_000_000int, 5_000_000int);
            lemma_fmul_range(self.u.z as int, rd.x as int, 2_000_000int, 5_000_000int);
            lemma_fmul_range(self.v.x as int, rd.y as int, 8_000_000int, 5_000_000int);
            lemma_fmul_range(self.v.y as int, rd.y as int, 8_000_000int, 5_000_000int);
            lemma_fmul_range(self.v.z as int, rd.y as int, 8_000_000int, 5_000_000int);
            crate::fixed::lemma_fmul_linear_bound(self.u.x as int, rd.x as int, 2int,
                self.lens_radius as int);
            crate::fixed::lemma_fmul_linear_bound(self.u.y as int, rd.x as int, 2int,
                self.lens_radius as int);
            crate::fixed::lemma_fmul_linear_bound(self.u.z as int, rd.x as int, 2int,
                self.lens_radius as int);
            crate::fixed::lemma_fmul_linear_bound(self.v.x as int, rd.y as int, 8int,
                self.lens_radius as int);
            crate::fixed::lemma_fmul_linear_bound(self.v.y as int, rd.y as int, 8int,
                self.lens_radius as int);
            crate::fixed::lemma_fmul_linear_bound(self.v.z as int, rd.y as int, 8int,
                self.lens_radius as int);
        }
        let offset = self.u.scale(rd.x).add(self.v.scale(rd.y));
        let jittered = self.origin.add(offset);
        proof {
            assert(Vec3::spec_sub(jittered, self.origin).bounded(10 * self.lens_radius as int));
        }
        proof {
            lemma_fmul_range(self.horizontal.x as int, s as int, 1_000_000_000int,
                2 * SCALE as int);
            lemma_fmul_range(self.horizontal.y as int, s as int, 1_000_000_000int,
                2 * SCALE as int);
            lemma_fmul_range(self.horizontal.z as int, s as int, 1_000_000_000int,
                2 * SCALE as int);
            lemma_fmul_range(self.vertical.x as int, t as int, 2_000_000_000int,
                2 * SCALE as int);
            lemma_fmul_range(self.vertical.y as int, t as int, 2_000_000_000int,
                2 * SCALE as int);
            lemma_fmul_range(self.vertical.z as int, t as int, 2_000_000_000int,
                2 * SCALE as int);
        }
        let direction = self.lower_left_corner
            .add(self.horizontal.scale(s))
            .add(self.vertical.scale(t))
            .sub(jittered);
        proof {
            if self.lens_radius == 0 {
                assert(fmul(disk.x as int, 0int) == 0);
                assert(fmul(disk.y as int, 0int) == 0);
                assert(fmul(disk.z as int, 0int) == 0);
                assert(rd == (Vec3 { x: 0i64, y: 0i64, z: 0i64 }));
                lemma_fmul_range(self.u.x as int, 0int, 2_000_000int, 0int);
                lemma_fmul_range(self.u.y as int, 0int, 2_000_000int, 0int);
                lemma_fmul_range(self.u.z as int, 0int, 2_000_000int, 0int);
                lemma_fmul_range(self.v.x as int, 0int, 8_000_000int, 0int);
                lemma_fmul_range(self.v.y as int, 0int, 8_000_000int, 0int);
                lemma_fmul_range(self.v.z as int, 0int, 8_000_000int, 0int);
                assert(fmul(self.u.x as int, 0int) == 0 && fmul(self.u.y as int, 0int) == 0
                    && fmul(self.u.z as int, 0int) == 0);
                assert(fmul(self.v.x as int, 0int) == 0 && fmul(self.v.y as int, 0int) == 0
                    && fmul(self.v.z as int, 0int) == 0);
                assert(offset == (Vec3 { x: 0i64, y: 0i64, z: 0i64 }));
                assert(jittered == self.origin);
            }
        }
        Ray { origin: jittered, direction }
    }
}

} // verus!
