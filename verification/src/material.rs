//! The material table: a tagged union with per-variant shading parameters,
//! dispatched by tag inside the compute kernel.

use vstd::prelude::*;
use crate::vecmath::Vec3Fp;

verus! {

/// A surface material. Albedo components and scalar parameters are
/// fixed-point values (see `vecmath::FP_ONE`).
#[derive(Clone, Copy, PartialEq, Eq, Structural, Debug)]
pub enum Material {
    /// Diffuse surface with the given albedo.
    Lambertian(Vec3Fp),
    /// Reflective surface with albedo and fuzz radius.
    Metal(Vec3Fp, i64),
    /// Transparent surface with the given refractive index.
    Dielectric(i64),
}

} // verus!
