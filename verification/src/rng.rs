//! Random scalar draws for sampling.
//!
//! The draws come from the `rand` crate's thread-local generator. Nothing is
//! assumed of a draw beyond its range, so every caller is verified for every
//! value the generator can return.

use vstd::prelude::*;
use crate::fixed::{SCALE, fmul};

verus! {

/// Relies on `rand::random_range`: a uniform draw from the given non-empty
/// half-open range, here `0..SCALE`, using the thread-local generator.
#[verifier::external_body]
fn draw_unit() -> (r: i64)
    ensures
        0 <= r < SCALE,
{
    rand::random_range(0..1_000_000i64)
}

/// A random scalar in `[0, 1)`, that is, in `[0, SCALE)` raw steps.
pub fn random_scalar() -> (r: i64)
    ensures
        0 <= r < SCALE,
{
    draw_unit()
}

/// A random scalar in `[min, max)`: `min + (max - min) * u` for a draw
/// `u` in `[0, 1)`. An empty range returns `min` itself.
pub fn random_range_scalar(min: i64, max: i64) -> (r: i64)
    requires
        min <= max,
        max as int - min as int <= i64::MAX as int,
    ensures
        min <= r <= max,
        min < max ==> r < max,
        min == max ==> r == min,
{
    let u = draw_unit();
    let d = max - min;
    proof {
        if d == 0 {
            crate::fixed::lemma_fmul_identity(u as int);
        } else {
            crate::fixed::lemma_fmul_scale_range(d as int, u as int);
        }
    }
    min + crate::fixed::mul_fixed(d, u)
}

} // verus!
