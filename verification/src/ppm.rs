//! The framebuffer: a dense row-major pixel buffer with gamma-corrected,
//! clamped, byte-quantized writes.

use vstd::prelude::*;
use crate::fixed::{SCALE, fsqrt, sqrt_fixed, clamp};
use crate::vec3::Color;

verus! {

#[derive(Debug, Clone, Copy, PartialEq, Eq)]
pub enum Pixel {
    Rgb([u8; 3]),
}

impl Pixel {
    pub open spec fn spec_zeros() -> Pixel {
        Pixel::Rgb([0u8, 0u8, 0u8])
    }

    pub fn zeros() -> (r: Pixel)
        ensures
            r == Pixel::spec_zeros(),
    {
        Pixel::Rgb([0, 0, 0])
    }
}

/// One accumulated sample sum, tone-mapped to a byte: averaged over the
/// sample count, square-root gamma-corrected, clamped below one, and scaled
/// to the byte range. A negative channel, which only a degenerate sample
/// chain can produce, quantizes to zero.
pub open spec fn spec_tone(c: int, samples_per_pixel: int) -> int {
    let ch = if c < 0 {
        0
    } else {
        c
    };
    let scaled = ch / samples_per_pixel;
    let root = fsqrt(scaled);
    let clamped = if root > 999_000 {
        999_000
    } else {
        root
    };
    (256 * clamped) / (SCALE as int)
}

/// The pixel a sample sum quantizes to.
pub open spec fn spec_tone_pixel(c: Color, samples_per_pixel: int) -> Pixel {
    Pixel::Rgb([
        spec_tone(c.x as int, samples_per_pixel) as u8,
        spec_tone(c.y as int, samples_per_pixel) as u8,
        spec_tone(c.z as int, samples_per_pixel) as u8,
    ])
}

/// Tone-maps one channel.
pub fn tone(c: i64, samples_per_pixel: u32) -> (r: u8)
    requires
        1 <= samples_per_pixel,
    ensures
        r == spec_tone(c as int, samples_per_pixel as int),
{
    let ch: i64 = if c < 0 {
        0
    } else {
        c
    };
    let scaled = ((ch as u64) / (samples_per_pixel as u64)) as i64;
    proof {
        vstd::arithmetic::div_mod::lemma_div_nonincreasing(ch as int, samples_per_pixel as int);
        vstd::arithmetic::div_mod::lemma_div_pos_is_pos(ch as int, samples_per_pixel as int);
    }
    let root = sqrt_fixed(scaled);
    let clamped = clamp(root, 0, 999_000);
    proof {
        vstd::arithmetic::div_mod::lemma_div_is_ordered(256 * clamped, 256 * 999_000int,
            SCALE as int);
        vstd::arithmetic::div_mod::lemma_div_pos_is_pos(256 * clamped, SCALE as int);
    }
    (((256 * clamped) as u64) / (SCALE as u64)) as u8
}

#[derive(Debug)]
pub struct Image {
    pub height: u32,
    pub width: u32,
    pub buffer: Vec<Pixel>,
}

impl Image {
    /// The buffer holds exactly one pixel per raster cell, and the cell count
    /// stays within the index arithmetic's range.
    pub open spec fn wf(self) -> bool {
        &&& self.buffer@.len() == (self.height as int) * (self.width as int)
        &&& (self.height as int) * (self.width as int) <= u32::MAX as int
    }

    pub fn new(height: u32, width: u32) -> (r: Image)
        requires
            (height as int) * (width as int) <= u32::MAX as int,
        ensures
            r.height == height,
            r.width == width,
            r.wf(),
            forall|k: int| 0 <= k < r.buffer@.len() ==> r.buffer@[k] == Pixel::spec_zeros(),
    {
        proof {
            assert(0 <= (height as int) * (width as int)) by (nonlinear_arith);
        }
        let n: u32 = height * width;
        let mut buffer: Vec<Pixel> = Vec::new();
        let mut k: u32 = 0;
        while k < n
            invariant
                k <= n,
                buffer@.len() == k as int,
                forall|j: int| 0 <= j < k as int ==> buffer@[j] == Pixel::spec_zeros(),
            decreases n - k,
        {
            buffer.push(Pixel::zeros());
            k = k + 1;
        }
        Image { height, width, buffer }
    }

    pub fn width(&self) -> (r: u32)
        ensures
            r == self.width,
    {
        self.width
    }

    pub fn height(&self) -> (r: u32)
        ensures
            r == self.height,
    {
        self.height
    }

    /// The raster index of a cell.
    pub open spec fn spec_index(self, y: u32, x: u32) -> int {
        (y as int) * (self.width as int) + (x as int)
    }

    pub fn get_pixel(&self, y: u32, x: u32) -> (r: Pixel)
        requires
            self.wf(),
            y < self.height,
            x < self.width,
        ensures
            r == self.buffer@[self.spec_index(y, x)],
    {
        proof {
            lemma_index_in_range(self.height as int, self.width as int, y as int, x as int);
        }
        self.buffer[(y * self.width + x) as usize]
    }

    pub fn set_pixel(&mut self, y: u32, x: u32, rgb: Pixel)
        requires
            old(self).wf(),
            y < old(self).height,
            x < old(self).width,
        ensures
            final(self).height == old(self).height,
            final(self).width == old(self).width,
            final(self).wf(),
            final(self).buffer@ == old(self).buffer@.update(old(self).spec_index(y, x), rgb),
    {
        proof {
            lemma_index_in_range(self.height as int, self.width as int, y as int, x as int);
        }
        let idx = (y * self.width + x) as usize;
        self.buffer.set(idx, rgb);
    }

    /// Writes the tone-mapped average of a sample sum into a cell.
    pub fn set_color(&mut self, y: u32, x: u32, color: &Color, samples_per_pixel: u32)
        requires
            old(self).wf(),
            y < old(self).height,
            x < old(self).width,
            1 <= samples_per_pixel,
        ensures
            final(self).height == old(self).height,
            final(self).width == old(self).width,
            final(self).wf(),
            final(self).buffer@ == old(self).buffer@.update(
                old(self).spec_index(y, x),
                spec_tone_pixel(*color, samples_per_pixel as int),
            ),
    {
        let r = tone(color.x, samples_per_pixel);
        let g = tone(color.y, samples_per_pixel);
        let b = tone(color.z, samples_per_pixel);
        self.set_pixel(y, x, Pixel::Rgb([r, g, b]));
    }
}

/// A cell's raster index lies within the buffer, and the index arithmetic
/// stays within `u32` whenever the cell count does.
pub proof fn lemma_index_in_range(height: int, width: int, y: int, x: int)
    requires
        0 <= y < height,
        0 <= x < width,
    ensures
        0 <= y * width + x < height * width,
{
    assert(y * width + x < height * width && 0 <= y * width) by (nonlinear_arith)
        requires 0 <= y < height, 0 <= x < width,
    ;
}

/// Dividing a cell's raster index by the width recovers its row.
pub proof fn lemma_index_row(width: int, y: int, x: int)
    requires
        0 < width,
        0 <= y,
        0 <= x < width,
    ensures
        (y * width + x) / width == y,
{
    vstd::arithmetic::div_mod::lemma_fundamental_div_mod_converse_div(y * width + x, width, y, x);
}

} // verus!
