//! Scene construction and validation.
//!
//! The compute stage performs no bounds checking, so a scene whose material
//! indices are out of range, or whose coordinates exceed the builder's
//! limits, is rejected here, before the BVH build runs.

use vstd::prelude::*;
use crate::material::Material;
use crate::sphere::{all_bounded, sphere_bounded, Sphere, COORD_LIMIT};

verus! {

/// Why a scene was rejected at construction time.
#[derive(Clone, Copy, PartialEq, Eq, Structural, Debug)]
pub enum SceneError {
    /// Some sphere's coordinates or radius exceed `COORD_LIMIT`, or the
    /// radius is negative.
    SphereOutOfBounds,
    /// Some sphere's material index is not a valid index into the table.
    MaterialIndexOutOfRange,
}

/// Every sphere's material index points into the material table.
pub open spec fn all_indices_valid(spheres: Seq<Sphere>, materials: Seq<Material>) -> bool {
    forall|i: int| 0 <= i < spheres.len() ==> (#[trigger] spheres[i]).material_idx < materials.len()
}

/// An immutable-after-build sphere list and material table.
#[derive(Clone, Debug)]
pub struct Scene {
    pub spheres: Vec<Sphere>,
    pub materials: Vec<Material>,
}

impl Scene {
    /// Validate and take ownership of a sphere list and material table.
    /// Succeeds exactly when every sphere is within the coordinate limits and
    /// every material index is in range.
    pub fn new(spheres: Vec<Sphere>, materials: Vec<Material>) -> (r: Result<Scene, SceneError>)
        ensures
            r is Ok <==> (all_bounded(spheres@) && all_indices_valid(spheres@, materials@)),
            r matches Ok(s) ==> s.spheres@ == spheres@ && s.materials@ == materials@,
            r == Result::<Scene, SceneError>::Err(SceneError::SphereOutOfBounds) <==> !all_bounded(
                spheres@,
            ),
            r == Result::<Scene, SceneError>::Err(SceneError::MaterialIndexOutOfRange) <==> (
            all_bounded(spheres@) && !all_indices_valid(spheres@, materials@)),
    {
        let n = spheres.len();
        let mut i: usize = 0;
        while i < n
            invariant
                n == spheres@.len(),
                0 <= i <= n,
                forall|k: int| 0 <= k < i ==> sphere_bounded(#[trigger] spheres@[k]),
            decreases n - i,
        {
            let s = spheres[i];
            if !(-COORD_LIMIT <= s.center.x && s.center.x <= COORD_LIMIT && -COORD_LIMIT
                <= s.center.y && s.center.y <= COORD_LIMIT && -COORD_LIMIT <= s.center.z
                && s.center.z <= COORD_LIMIT && 0 <= s.radius && s.radius <= COORD_LIMIT) {
                return Err(SceneError::SphereOutOfBounds);
            }
            i = i + 1;
        }
        let m = materials.len();
        let mut j: usize = 0;
        while j < n
            invariant
                n == spheres@.len(),
                m == materials@.len(),
                0 <= j <= n,
                all_bounded(spheres@),
                forall|k: int|
                    0 <= k < j ==> (#[trigger] spheres@[k]).material_idx < materials@.len(),
            decreases n - j,
        {
            if spheres[j].material_idx as usize >= m {
                return Err(SceneError::MaterialIndexOutOfRange);
            }
            j = j + 1;
        }
        Ok(Scene { spheres, materials })
    }
}

} // verus!
