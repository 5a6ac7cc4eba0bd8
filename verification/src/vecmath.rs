//! Fixed-point 3-vector arithmetic.
//!
//! Geometry is carried as signed 64-bit fixed-point numbers with
//! `FP_ONE == 2^16` as the unit, so every quantity the contracts speak of is a
//! plain integer. Division truncates towards zero, written `tdiv` in specs.

use vstd::prelude::*;

verus! {

/// The fixed-point unit: coordinates are multiples of `1 / FP_ONE`.
pub const FP_ONE: i64 = 65536;

/// Truncating (round-towards-zero) division, the semantics of `/` on the
/// machine integers, for a positive divisor.
pub open spec fn tdiv(a: int, b: int) -> int {
    if a >= 0 {
        a / b
    } else {
        -((-a) / b)
    }
}

/// The fixed-point product: `a * b` rescaled back by the unit, truncated.
pub open spec fn fp_mul_spec(a: int, b: int) -> int {
    tdiv(a * b, FP_ONE as int)
}

/// A 3-vector of fixed-point coordinates.
#[derive(Clone, Copy, PartialEq, Eq, Structural, Debug)]
pub struct Vec3Fp {
    pub x: i64,
    pub y: i64,
    pub z: i64,
}

/// A 3-vector of unbounded integers, for specifications.
pub struct V3 {
    pub x: int,
    pub y: int,
    pub z: int,
}

impl Vec3Fp {
    pub open spec fn spec_view(self) -> V3 {
        V3 { x: self.x as int, y: self.y as int, z: self.z as int }
    }

    /// Coordinate along axis `a` (0 = x, 1 = y, 2 = z).
    pub open spec fn spec_axis(self, a: int) -> int {
        if a == 0 {
            self.x as int
        } else if a == 1 {
            self.y as int
        } else {
            self.z as int
        }
    }

    pub fn new(x: i64, y: i64, z: i64) -> (r: Vec3Fp)
        ensures
            r == (Vec3Fp { x, y, z }),
    {
        Vec3Fp { x, y, z }
    }

    /// Coordinate along axis `a` (0 = x, 1 = y, anything else = z).
    pub fn axis(&self, a: usize) -> (r: i64)
        requires
            a < 3,
        ensures
            r == self.spec_axis(a as int),
    {
        if a == 0 {
            self.x
        } else if a == 1 {
            self.y
        } else {
            self.z
        }
    }
}

/// Bounds under which `tdiv` stays bounded: `|x| <= c * d` gives
/// `|tdiv(x, d)| <= c`.
pub proof fn lemma_tdiv_bound(x: int, d: int, c: int)
    requires
        d >= 1,
        c >= 0,
        -(c * d) <= x <= c * d,
    ensures
        -c <= tdiv(x, d) <= c,
{
    if x >= 0 {
        assert(x / d <= c && x / d >= 0) by (nonlinear_arith)
            requires
                d >= 1,
                c >= 0,
                0 <= x <= c * d,
        ;
    } else {
        assert((-x) / d <= c && (-x) / d >= 0) by (nonlinear_arith)
            requires
                d >= 1,
                c >= 0,
                0 <= -x <= c * d,
        ;
    }
}

/// The product of two bounded factors is bounded.
pub proof fn lemma_mul_bound(a: int, b: int, ca: int, cb: int)
    requires
        -ca <= a <= ca,
        -cb <= b <= cb,
        0 <= ca,
        0 <= cb,
    ensures
        -(ca * cb) <= a * b <= ca * cb,
{
    assert(-(ca * cb) <= a * b <= ca * cb) by (nonlinear_arith)
        requires
            -ca <= a <= ca,
            -cb <= b <= cb,
            0 <= ca,
            0 <= cb,
    ;
}

/// Bounded factors keep the fixed-point product within `c`, provided
/// `ca * cb <= c * FP_ONE`.
pub proof fn lemma_fp_mul_bound(a: int, b: int, ca: int, cb: int, c: int)
    requires
        -ca <= a <= ca,
        -cb <= b <= cb,
        0 <= ca,
        0 <= cb,
        0 <= c,
        ca * cb <= c * (FP_ONE as int),
    ensures
        -c <= fp_mul_spec(a, b) <= c,
{
    lemma_mul_bound(a, b, ca, cb);
    lemma_tdiv_bound(a * b, FP_ONE as int, c);
}

/// Truncating division by a positive divisor never grows a magnitude bound.
pub proof fn lemma_tdiv_abs(x: int, d: int, m: int)
    requires
        d >= 1,
        0 <= m,
        -m <= x <= m,
    ensures
        -m <= tdiv(x, d) <= m,
{
    if x >= 0 {
        assert(0 <= x / d <= x) by (nonlinear_arith)
            requires
                d >= 1,
                x >= 0,
        ;
    } else {
        assert(0 <= (-x) / d <= -x) by (nonlinear_arith)
            requires
                d >= 1,
                -x >= 0,
        ;
    }
}

/// The fixed-point product of non-negative factors is non-negative.
pub proof fn lemma_fp_mul_nonneg(a: int, b: int)
    requires
        a >= 0,
        b >= 0,
    ensures
        fp_mul_spec(a, b) >= 0,
{
    assert(a * b >= 0) by (nonlinear_arith)
        requires
            a >= 0,
            b >= 0,
    ;
    assert((a * b) / (FP_ONE as int) >= 0) by (nonlinear_arith)
        requires
            a * b >= 0,
    ;
}

/// Fixed-point multiplication; the wide intermediate product cannot overflow.
pub fn fpmul(a: i64, b: i64) -> (r: i64)
    requires
        i64::MIN <= fp_mul_spec(a as int, b as int) <= i64::MAX,
    ensures
        r as int == fp_mul_spec(a as int, b as int),
{
    let wide: i128 = (a as i128) * (b as i128);
    let q: i128 = wide / (FP_ONE as i128);
    q as i64
}

/// Truncating division by a positive divisor.
pub fn divt(a: i64, d: i64) -> (r: i64)
    requires
        d >= 1,
    ensures
        r as int == tdiv(a as int, d as int),
{
    proof {
        if a >= 0 {
            assert(0 <= (a as int) / (d as int) <= a as int) by (nonlinear_arith)
                requires
                    a >= 0,
                    d >= 1,
            ;
        } else {
            assert(0 <= (-(a as int)) / (d as int) <= -(a as int)) by (nonlinear_arith)
                requires
                    a < 0,
                    d >= 1,
            ;
        }
    }
    let wide: i128 = (a as i128) / (d as i128);
    wide as i64
}

/// Mirror reflection of `incident` about the unit normal `norm`:
/// `incident - 2 * dot(incident, norm) * norm`, in fixed point.
pub open spec fn spec_dot(u: Vec3Fp, v: Vec3Fp) -> int {
    tdiv(u.x * v.x + u.y * v.y + u.z * v.z, FP_ONE as int)
}

/// Component `c` of the reflection of a vector with component `ic` about a
/// normal with component `nc`, where `d` is the fixed-point dot product.
pub open spec fn spec_reflect_component(ic: int, nc: int, d: int) -> int {
    ic - fp_mul_spec(2 * d, nc)
}

/// Magnitude bound used by `dot` and `reflect`: about four million units.
pub const VEC_LIMIT: i64 = 0x40_0000_0000;

pub open spec fn vec_bounded(v: Vec3Fp) -> bool {
    &&& -VEC_LIMIT <= v.x <= VEC_LIMIT
    &&& -VEC_LIMIT <= v.y <= VEC_LIMIT
    &&& -VEC_LIMIT <= v.z <= VEC_LIMIT
}

/// A direction vector of unit scale (with slack): each fixed-point component
/// stays within two units.
pub open spec fn unit_bounded(v: Vec3Fp) -> bool {
    &&& -2 * FP_ONE <= v.x <= 2 * FP_ONE
    &&& -2 * FP_ONE <= v.y <= 2 * FP_ONE
    &&& -2 * FP_ONE <= v.z <= 2 * FP_ONE
}

/// Fixed-point dot product of two bounded vectors.
pub fn dot(u: Vec3Fp, v: Vec3Fp) -> (r: i64)
    requires
        vec_bounded(u),
        vec_bounded(v),
    ensures
        r as int == spec_dot(u, v),
{
    proof {
        lemma_mul_bound(u.x as int, v.x as int, VEC_LIMIT as int, VEC_LIMIT as int);
        lemma_mul_bound(u.y as int, v.y as int, VEC_LIMIT as int, VEC_LIMIT as int);
        lemma_mul_bound(u.z as int, v.z as int, VEC_LIMIT as int, VEC_LIMIT as int);
        lemma_tdiv_bound(
            u.x as int * v.x as int + u.y as int * v.y as int + u.z as int * v.z as int,
            FP_ONE as int,
            3 * (VEC_LIMIT as int) * (VEC_LIMIT as int),
        );
    }
    let wide: i128 = (u.x as i128) * (v.x as i128) + (u.y as i128) * (v.y as i128) + (
    u.z as i128) * (v.z as i128);
    let q: i128 = wide / (FP_ONE as i128);
    q as i64
}

/// Reflect `incident` about the unit normal `norm` in fixed point:
/// each component is `incident - 2 * dot(incident, norm) * norm`.
pub fn reflect(incident: Vec3Fp, norm: Vec3Fp) -> (r: Vec3Fp)
    requires
        vec_bounded(incident),
        unit_bounded(norm),
    ensures
        ({
            let d = spec_dot(incident, norm);
            &&& r.x as int == spec_reflect_component(incident.x as int, norm.x as int, d)
            &&& r.y as int == spec_reflect_component(incident.y as int, norm.y as int, d)
            &&& r.z as int == spec_reflect_component(incident.z as int, norm.z as int, d)
        }),
{
    let ghost vl = VEC_LIMIT as int;
    let ghost f = FP_ONE as int;
    let ghost sum = incident.x as int * norm.x as int + incident.y as int * norm.y as int
        + incident.z as int * norm.z as int;
    proof {
        lemma_mul_bound(incident.x as int, norm.x as int, vl, 2 * f);
        lemma_mul_bound(incident.y as int, norm.y as int, vl, 2 * f);
        lemma_mul_bound(incident.z as int, norm.z as int, vl, 2 * f);
        lemma_tdiv_bound(sum, f, 6 * vl);
    }
    let d = dot(incident, norm);
    proof {
        lemma_fp_mul_bound(2 * (d as int), norm.x as int, 12 * vl, 2 * f, 24 * vl);
        lemma_fp_mul_bound(2 * (d as int), norm.y as int, 12 * vl, 2 * f, 24 * vl);
        lemma_fp_mul_bound(2 * (d as int), norm.z as int, 12 * vl, 2 * f, 24 * vl);
    }
    let dx: i128 = (2 * (d as i128)) * (norm.x as i128) / (FP_ONE as i128);
    let dy: i128 = (2 * (d as i128)) * (norm.y as i128) / (FP_ONE as i128);
    let dz: i128 = (2 * (d as i128)) * (norm.z as i128) / (FP_ONE as i128);
    Vec3Fp {
        x: ((incident.x as i128) - dx) as i64,
        y: ((incident.y as i128) - dy) as i64,
        z: ((incident.z as i128) - dz) as i64,
    }
}

} // verus!
