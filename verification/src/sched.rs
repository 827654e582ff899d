//! Work distribution for rendering: a shared monotonically decreasing row
//! counter that workers claim rows from, the per-row sampling loop, and a
//! sequential driver that renders a whole frame.
//!
//! The counter hands every row index in `[0, height)` to exactly one claim,
//! in descending order; a claim below zero signals that all rows are taken.

use vstd::prelude::*;
use crate::fixed::SCALE;
use crate::camera::Camera;
use crate::ppm::Image;
use crate::tracer::{HitTable, ray_color};
use crate::vec3::{Vec3, Color};

verus! {

/// A shared row counter, decremented once per claim. The ghost fields record
/// the height it was started for and how many claims it has answered.
pub struct RowCounter {
    pub next: i64,
    pub height: Ghost<int>,
    pub claims: Ghost<int>,
}

/// What the `k`-th claim (counted from zero) on a counter started at
/// `height - 1` returns: the rows in descending order, then nothing.
pub open spec fn spec_claim_at(height: int, k: int) -> Option<int> {
    if 0 <= k && height - 1 - k >= 0 {
        Some(height - 1 - k)
    } else {
        None
    }
}

/// Every row in `[0, height)` is claimed exactly once: distinct claims return
/// distinct rows, row `r` is returned by claim `height - 1 - r`, every
/// returned row is in range, and from claim `height` on nothing is returned.
pub proof fn lemma_rows_each_claimed_once(height: int)
    requires
        0 <= height,
    ensures
        forall|k1: int, k2: int|
            #[trigger] spec_claim_at(height, k1) is Some && spec_claim_at(height, k1)
                == #[trigger] spec_claim_at(height, k2) ==> k1 == k2,
        forall|r: int| 0 <= r < height ==> #[trigger] spec_claim_at(height, height - 1 - r)
            == Some(r),
        forall|k: int| 0 <= k ==> (#[trigger] spec_claim_at(height, k) matches Some(r)
            ==> 0 <= r < height),
        forall|k: int| k >= height ==> #[trigger] spec_claim_at(height, k) is None,
{
}

impl RowCounter {
    /// The counter always reads the height minus the claims already answered.
    pub open spec fn wf(self) -> bool {
        &&& 0 <= self.claims@
        &&& 0 <= self.height@ <= u32::MAX as int
        &&& self.next == self.height@ - 1 - self.claims@
    }

    pub fn new(height: u32) -> (r: RowCounter)
        ensures
            r.next == height as int - 1,
            r.height@ == height as int,
            r.claims@ == 0,
            r.wf(),
    {
        RowCounter { next: height as i64 - 1, height: Ghost(height as int), claims: Ghost(0) }
    }

    /// Claims the next unclaimed row, handing out `next` and decrementing it;
    /// once the counter is exhausted every further claim returns nothing. The
    /// `k`-th claim returns exactly `spec_claim_at(height, k)`, so by
    /// `lemma_rows_each_claimed_once` every row is handed out exactly once.
    pub fn claim(&mut self) -> (r: Option<u32>)
        requires
            old(self).wf(),
            i64::MIN < old(self).next,
        ensures
            final(self).wf(),
            final(self).height == old(self).height,
            final(self).claims@ == old(self).claims@ + 1,
            final(self).next == old(self).next - 1,
            r matches Some(row) ==> spec_claim_at(old(self).height@, old(self).claims@)
                == Some(row as int),
            r is None ==> spec_claim_at(old(self).height@, old(self).claims@) is None,
    {
        let row = self.next;
        self.next = self.next - 1;
        proof {
            self.claims@ = self.claims@ + 1;
        }
        if row < 0 {
            None
        } else {
            Some(row as u32)
        }
    }
}

/// One raster row holds tone-mapped pixels: some sequence of per-column
/// sample sums quantizes, cell by cell, to exactly what the row shows.
pub open spec fn row_filled(img: Image, yy: int, samples_per_pixel: int) -> bool {
    exists|sums: Seq<Color>|
        #![trigger sums.len()]
        sums.len() == img.width as int && (forall|x: int|
            0 <= x < img.width as int ==> img.buffer@[yy * (img.width as int) + x]
                == crate::ppm::spec_tone_pixel(#[trigger] sums[x], samples_per_pixel))
}

/// Traces one row of the frame: for every column, `samples_per_pixel`
/// jittered rays are drawn through the camera and their radiances summed.
/// Each sum is a non-negative color bounded by twice the unit range per
/// sample; the values themselves depend on the generator's draws.
pub fn trace_row<T: HitTable>(
    cam: &Camera,
    world: &T,
    row: u32,
    width: u32,
    height: u32,
    samples_per_pixel: u32,
    max_depth: u32,
) -> (sums: Vec<Color>)
    requires
        2 <= width <= 1_000_000,
        2 <= height <= 1_000_000,
        row < height,
        1 <= samples_per_pixel <= 1_000_000,
        cam.wf(),
        world.hit_ok(),
    ensures
        sums@.len() == width as int,
        forall|k: int| 0 <= k < sums@.len() ==> {
            let c = #[trigger] sums@[k];
            0 <= c.x <= 2_000_000 * (samples_per_pixel as int) && 0 <= c.y <= 2_000_000 * (
            samples_per_pixel as int) && 0 <= c.z <= 2_000_000 * (samples_per_pixel as int)
        },
{
    let mut sums: Vec<Color> = Vec::new();
    let mut i: u32 = 0;
    while i < width
        invariant
            2 <= width <= 1_000_000,
            2 <= height <= 1_000_000,
            row < height,
            1 <= samples_per_pixel <= 1_000_000,
            cam.wf(),
            world.hit_ok(),
            i <= width,
            sums@.len() == i as int,
            forall|k: int| 0 <= k < sums@.len() ==> {
                let c = #[trigger] sums@[k];
                0 <= c.x <= 2_000_000 * (samples_per_pixel as int) && 0 <= c.y <= 2_000_000 * (
                samples_per_pixel as int) && 0 <= c.z <= 2_000_000 * (samples_per_pixel as int)
            },
        decreases width - i,
    {
        let mut pixel_color = Vec3 { x: 0, y: 0, z: 0 };
        let mut s: u32 = 0;
        while s < samples_per_pixel
            invariant
                0 <= pixel_color.x <= 2_000_000 * (s as int),
                0 <= pixel_color.y <= 2_000_000 * (s as int),
                0 <= pixel_color.z <= 2_000_000 * (s as int),
                s <= samples_per_pixel <= 1_000_000,
                i < width <= 1_000_000,
                row < height <= 1_000_000,
                2 <= width,
                2 <= height,
                cam.wf(),
                world.hit_ok(),
            decreases samples_per_pixel - s,
        {
            let jx = crate::rng::random_scalar();
            let jy = crate::rng::random_scalar();
            proof {
                lemma_jitter_in_range(i as int, width as int, jx as int);
                lemma_jitter_in_range(row as int, height as int, jy as int);
            }
            let u = ((((i as i64) * SCALE + jx) as u64) / ((width - 1) as u64)) as i64;
            let v = ((((row as i64) * SCALE + jy) as u64) / ((height - 1) as u64)) as i64;
            let r = cam.get_ray(u, v);
            let sample = ray_color(r, world, max_depth);
            proof {
                assert(2_000_000int * (s as int) + 2_000_000int == 2_000_000int * (s as int + 1));
                assert(2_000_000int * (s as int) <= 2_000_000_000_000int);
            }
            pixel_color = pixel_color.add(sample);
            s = s + 1;
        }
        sums.push(pixel_color);
        i = i + 1;
    }
    sums
}

/// Writes one row of tone-mapped sample sums into the framebuffer: the cell
/// of column `x` in raster row `height - row - 1` becomes exactly the
/// quantization of `sums[x]`, and no cell outside that row changes.
pub fn write_row(img: &mut Image, row: u32, sums: &Vec<Color>, samples_per_pixel: u32)
    requires
        old(img).wf(),
        row < old(img).height,
        sums@.len() == old(img).width as int,
        1 <= samples_per_pixel,
    ensures
        final(img).wf(),
        final(img).height == old(img).height,
        final(img).width == old(img).width,
        forall|x: int|
            0 <= x < old(img).width as int ==> final(img).buffer@[(old(img).height as int - row
                - 1) * (old(img).width as int) + x] == crate::ppm::spec_tone_pixel(
                #[trigger] sums@[x], samples_per_pixel as int),
        forall|k: int|
            0 <= k < old(img).buffer@.len() && #[trigger] (k / (old(img).width as int)) != old(
            img).height as int - row - 1 ==> final(img).buffer@[k] == old(img).buffer@[k],
{
    let ghost orig = *img;
    let width = img.width();
    let height = img.height();
    let yy = height - row - 1;
    let mut x: u32 = 0;
    while x < width
        invariant
            img.wf(),
            img.height == height,
            img.width == width,
            orig == *old(img),
            orig.wf(),
            orig.height == height,
            orig.width == width,
            yy == height - row - 1,
            row < height,
            sums@.len() == width as int,
            1 <= samples_per_pixel,
            x <= width,
            forall|j: int|
                0 <= j < x as int ==> img.buffer@[(yy as int) * (width as int) + j]
                    == crate::ppm::spec_tone_pixel(#[trigger] sums@[j],
                    samples_per_pixel as int),
            forall|k: int|
                0 <= k < orig.buffer@.len() && #[trigger] (k / (width as int)) != yy as int
                    ==> img.buffer@[k] == orig.buffer@[k],
        decreases width - x,
    {
        proof {
            crate::ppm::lemma_index_in_range(height as int, width as int, yy as int, x as int);
            crate::ppm::lemma_index_row(width as int, yy as int, x as int);
        }
        let ghost idx = (yy as int) * (width as int) + (x as int);
        let ghost prev = *img;
        img.set_color(yy, x, &sums[x as usize], samples_per_pixel);
        proof {
            let v = crate::ppm::spec_tone_pixel(sums@[x as int], samples_per_pixel as int);
            assert(img.buffer@ == prev.buffer@.update(idx, v));
            assert forall|k: int|
                0 <= k < orig.buffer@.len() && #[trigger] (k / (width as int)) != yy as int
                    implies img.buffer@[k] == orig.buffer@[k] by {
                assert(k != idx);
                assert(prev.buffer@.update(idx, v)[k] == prev.buffer@[k]);
                assert(img.buffer@[k] == prev.buffer@.update(idx, v)[k]);
            }
        }
        x = x + 1;
    }
}

/// Renders one row of the frame: the row's per-column sample sums are traced
/// and their tone-mapped averages written into the row's designated raster
/// slots. Every cell outside raster row `height - row - 1` is untouched, and
/// that row holds exactly the quantization of the traced sums.
pub fn render_row<T: HitTable>(
    img: &mut Image,
    cam: &Camera,
    world: &T,
    row: u32,
    samples_per_pixel: u32,
    max_depth: u32,
)
    requires
        old(img).wf(),
        2 <= old(img).width <= 1_000_000,
        2 <= old(img).height <= 1_000_000,
        row < old(img).height,
        1 <= samples_per_pixel <= 1_000_000,
        cam.wf(),
        world.hit_ok(),
    ensures
        final(img).wf(),
        final(img).height == old(img).height,
        final(img).width == old(img).width,
        forall|k: int|
            0 <= k < old(img).buffer@.len() && #[trigger] (k / (old(img).width as int)) != old(
            img).height as int - row - 1 ==> final(img).buffer@[k] == old(img).buffer@[k],
        row_filled(*final(img), old(img).height as int - row - 1, samples_per_pixel as int),
{
    let sums = trace_row(cam, world, row, img.width(), img.height(), samples_per_pixel,
        max_depth);
    write_row(img, row, &sums, samples_per_pixel);
    proof {
        let w = img.width as int;
        let yy = img.height as int - row - 1;
        assert(sums@.len() == w);
        assert(forall|x: int|
            0 <= x < w ==> img.buffer@[yy * w + x] == crate::ppm::spec_tone_pixel(
                #[trigger] sums@[x], samples_per_pixel as int));
        assert(row_filled(*img, yy, samples_per_pixel as int));
    }
}

/// The sub-pixel jitter `(i * SCALE + draw) / (extent - 1)` stays within the
/// doubled unit range that ray generation accepts.
proof fn lemma_jitter_in_range(i: int, extent: int, draw: int)
    requires
        0 <= i < extent,
        2 <= extent <= 1_000_000,
        0 <= draw < SCALE,
    ensures
        0 <= (i * (SCALE as int) + draw) / (extent - 1) <= 2 * SCALE,
{
    let s = SCALE as int;
    assert(0 <= i * s <= (extent - 1) * s) by (nonlinear_arith)
        requires 0 <= i <= extent - 1, s == 1_000_000,
    ;
    vstd::arithmetic::div_mod::lemma_div_pos_is_pos(i * s + draw, extent - 1);
    vstd::arithmetic::div_mod::lemma_div_is_ordered(i * s + draw, (extent - 1) * s + s - 1,
        extent - 1);
    assert(((extent - 1) * s + s - 1) / (extent - 1) <= 2 * s) by (nonlinear_arith)
        requires 2 <= extent <= 1_000_000, s == 1_000_000,
    ;
}

/// Renders a whole frame by claiming rows from a fresh counter until all are
/// taken: every row index is claimed exactly once, and on return every raster
/// row holds the tone-mapped quantization of its claimed row's sample sums.
/// Row completion order is the counter's descending order here; with several
/// workers sharing one counter each row is still claimed exactly once, which
/// is what keeps their writes disjoint.
pub fn render<T: HitTable>(
    cam: &Camera,
    world: &T,
    width: u32,
    height: u32,
    samples_per_pixel: u32,
    max_depth: u32,
) -> (img: Image)
    requires
        2 <= width <= 1_000_000,
        2 <= height <= 1_000_000,
        (height as int) * (width as int) <= u32::MAX as int,
        1 <= samples_per_pixel <= 1_000_000,
        cam.wf(),
        world.hit_ok(),
    ensures
        img.wf(),
        img.height == height,
        img.width == width,
        forall|yy: int| 0 <= yy < height ==> row_filled(img, yy, samples_per_pixel as int),
{
    let mut img = Image::new(height, width);
    let mut counter = RowCounter::new(height);
    loop
        invariant
            img.wf(),
            img.height == height,
            img.width == width,
            2 <= width <= 1_000_000,
            2 <= height <= 1_000_000,
            1 <= samples_per_pixel <= 1_000_000,
            cam.wf(),
            world.hit_ok(),
            counter.wf(),
            counter.height@ == height as int,
            -1 <= counter.next < height,
            forall|yy: int|
                0 <= yy < height as int - 1 - counter.next ==> row_filled(img, yy,
                    samples_per_pixel as int),
        decreases counter.next + 1,
    {
        let claimed = counter.claim();
        match claimed {
            Some(row) => {
                let ghost before = img;
                render_row(&mut img, cam, world, row, samples_per_pixel, max_depth);
                proof {
                    let written = height as int - row - 1;
                    assert forall|yy: int|
                        0 <= yy < height as int - 1 - counter.next implies row_filled(img, yy,
                        samples_per_pixel as int) by {
                        if yy == written {
                        } else {
                            lemma_row_filled_preserved(before, img, yy, samples_per_pixel as int,
                                written);
                        }
                    }
                }
            },
            None => {
                return img;
            },
        }
    }
}

/// A raster row's tone-mapped contents survive a write that stays outside it.
proof fn lemma_row_filled_preserved(
    a: Image,
    b: Image,
    yy: int,
    samples_per_pixel: int,
    y_written: int,
)
    requires
        a.wf(),
        b.width == a.width,
        b.buffer@.len() == a.buffer@.len(),
        0 <= yy < a.height,
        yy != y_written,
        row_filled(a, yy, samples_per_pixel),
        forall|k: int|
            0 <= k < a.buffer@.len() && #[trigger] (k / (a.width as int)) != y_written
                ==> b.buffer@[k] == a.buffer@[k],
    ensures
        row_filled(b, yy, samples_per_pixel),
{
    let w = a.width as int;
    let sums = choose|sums: Seq<Color>|
        #![trigger sums.len()]
        sums.len() == w && (forall|x: int|
            0 <= x < w ==> a.buffer@[yy * w + x] == crate::ppm::spec_tone_pixel(
                #[trigger] sums[x], samples_per_pixel));
    assert forall|x: int| 0 <= x < w implies b.buffer@[yy * w + x]
        == crate::ppm::spec_tone_pixel(#[trigger] sums[x], samples_per_pixel) by {
        crate::ppm::lemma_index_in_range(a.height as int, w, yy, x);
        crate::ppm::lemma_index_row(w, yy, x);
    }
    assert(sums.len() == w);
    assert(row_filled(b, yy, samples_per_pixel));
}

} // verus!
