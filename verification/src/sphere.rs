//! The one primitive type: a sphere with a material reference.

use vstd::prelude::*;
use crate::vecmath::Vec3Fp;

verus! {

/// Largest coordinate magnitude (and radius) a sphere may carry, so that the
/// bounding-box arithmetic of the BVH builder cannot overflow.
pub const COORD_LIMIT: i64 = 576460752303423488;

/// A sphere primitive. The material index travels with the sphere, so the
/// in-place reordering of the BVH build keeps it consistent.
#[derive(Clone, Copy, PartialEq, Eq, Structural, Debug)]
pub struct Sphere {
    pub center: Vec3Fp,
    pub radius: i64,
    pub material_idx: u32,
}

/// The coordinate discipline every sphere handed to the BVH builder obeys.
pub open spec fn sphere_bounded(s: Sphere) -> bool {
    &&& -COORD_LIMIT <= s.center.x <= COORD_LIMIT
    &&& -COORD_LIMIT <= s.center.y <= COORD_LIMIT
    &&& -COORD_LIMIT <= s.center.z <= COORD_LIMIT
    &&& 0 <= s.radius <= COORD_LIMIT
}

pub open spec fn all_bounded(s: Seq<Sphere>) -> bool {
    forall|i: int| 0 <= i < s.len() ==> sphere_bounded(#[trigger] s[i])
}

impl Sphere {
    pub fn new(center: Vec3Fp, radius: i64, material_idx: u32) -> (r: Sphere)
        ensures
            r == (Sphere { center, radius, material_idx }),
    {
        Sphere { center, radius, material_idx }
    }
}

} // verus!
