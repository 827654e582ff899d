//! The closed set of material variants a surface can carry.

use vstd::prelude::*;
use crate::lambertian::Lambertian;
use crate::metal::Metal;
use crate::dielectric::Dielectric;

verus! {

#[derive(Clone, Copy, Debug, PartialEq, Eq, Structural)]
pub enum MaterialType {
    Lambertian(Lambertian),
    Metal(Metal),
    Dielectric(Dielectric),
    Unset,
}

impl Default for MaterialType {
    fn default() -> (r: Self)
        ensures
            r == MaterialType::Unset,
    {
        MaterialType::Unset
    }
}

impl MaterialType {
    /// The carried material, if any, is valid.
    pub open spec fn wf(self) -> bool {
        match self {
            MaterialType::Lambertian(l) => l.wf(),
            MaterialType::Metal(m) => m.wf(),
            MaterialType::Dielectric(d) => d.wf(),
            MaterialType::Unset => true,
        }
    }
}

} // verus!
