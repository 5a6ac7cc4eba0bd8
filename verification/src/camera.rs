//! The CPU-facing camera pose and the pure derivation of the GPU-facing
//! packed camera block.
//!
//! The two are distinct types connected by `GPUCamera::new` alone, so the
//! representations cannot drift apart. Trigonometry cannot be computed in
//! fixed point here, so the caller hands in the two tangents the formulas
//! need (`tan` of half the vertical field of view and of half the defocus
//! angle, both in fixed point); everything after that point is exact integer
//! arithmetic with truncating division, and the contract pins every output
//! component.

use vstd::prelude::*;
use crate::vecmath::{fp_mul_spec, fpmul, divt, lemma_fp_mul_bound, lemma_fp_mul_nonneg,
    lemma_tdiv_abs, lemma_mul_bound, tdiv, unit_bounded, Vec3Fp, FP_ONE};

verus! {

/// Largest position-component magnitude the derivation accepts.
pub const POS_LIMIT: i64 = 1099511627776;

/// Largest focus distance the derivation accepts.
pub const FOCUS_LIMIT: i64 = 67108864;

/// Largest tangent value the derivation accepts.
pub const TAN_LIMIT: i64 = 4194304;

/// Largest viewport dimension, in pixels, the derivation accepts.
pub const MAX_DIM: u32 = 16384;

/// A camera pose: position, orthonormal basis, vertical field of view,
/// defocus angle (both fixed-point degrees) and focus distance. The basis is
/// the producer's responsibility; the derivation only reads it.
#[derive(Clone, Copy, PartialEq, Eq, Structural, Debug)]
pub struct Camera {
    pub position: Vec3Fp,
    pub forwards: Vec3Fp,
    pub right: Vec3Fp,
    pub up: Vec3Fp,
    pub vfov: i64,
    pub defocus_angle: i64,
    pub focus_distance: i64,
}

impl Camera {
    pub fn new(
        position: Vec3Fp,
        forwards: Vec3Fp,
        right: Vec3Fp,
        up: Vec3Fp,
        vfov: i64,
        defocus_angle: i64,
        focus_distance: i64,
    ) -> (r: Camera)
        ensures
            r == (Camera { position, forwards, right, up, vfov, defocus_angle, focus_distance }),
    {
        Camera { position, forwards, right, up, vfov, defocus_angle, focus_distance }
    }
}

/// The inputs `GPUCamera::new` accepts: a unit-scale basis, bounded position
/// and focus distance.
pub open spec fn camera_in_range(c: Camera) -> bool {
    &&& unit_bounded(c.forwards)
    &&& unit_bounded(c.right)
    &&& unit_bounded(c.up)
    &&& -POS_LIMIT <= c.position.x <= POS_LIMIT
    &&& -POS_LIMIT <= c.position.y <= POS_LIMIT
    &&& -POS_LIMIT <= c.position.z <= POS_LIMIT
    &&& 0 <= c.focus_distance <= FOCUS_LIMIT
}

/// The viewport's physical height at the focus plane:
/// `2 * tan(vfov / 2) * focus_distance`.
pub open spec fn viewport_height_spec(tan_half_vfov: int, focus: int) -> int {
    2 * fp_mul_spec(tan_half_vfov, focus)
}

/// The lens radius: `focus_distance * tan(defocus_angle / 2)`.
pub open spec fn lens_radius_spec(focus: int, tan_half_defocus: int) -> int {
    fp_mul_spec(focus, tan_half_defocus)
}

/// A component of the viewport's horizontal edge vector:
/// `right * viewport_height * (width / height)`.
pub open spec fn viewport_u_comp(right_c: int, vh: int, w: int, h: int) -> int {
    tdiv(fp_mul_spec(right_c, vh) * w, h)
}

/// A component of the viewport's vertical edge vector:
/// `-up * viewport_height` (the image's rows run downwards).
pub open spec fn viewport_v_comp(up_c: int, vh: int) -> int {
    -fp_mul_spec(up_c, vh)
}

/// A component of the per-pixel horizontal step: the edge vector divided by
/// the pixel count.
pub open spec fn du_comp(right_c: int, vh: int, w: int, h: int) -> int {
    tdiv(viewport_u_comp(right_c, vh, w, h), w)
}

/// A component of the per-pixel vertical step.
pub open spec fn dv_comp(up_c: int, vh: int, h: int) -> int {
    tdiv(viewport_v_comp(up_c, vh), h)
}

/// A component of the viewport's upper-left corner:
/// `position + focus * forwards - (viewport_u + viewport_v) / 2`.
pub open spec fn upper_left_comp(pos_c: int, fwd_c: int, focus: int, u_c: int, v_c: int) -> int {
    pos_c + fp_mul_spec(fwd_c, focus) - tdiv(u_c, 2) - tdiv(v_c, 2)
}

/// A component of the centre of pixel (0, 0): the upper-left corner plus half
/// a pixel step each way.
pub open spec fn pixel00_comp(ul_c: int, du_c: int, dv_c: int) -> int {
    ul_c + tdiv(du_c + dv_c, 2)
}

/// The GPU-facing packed camera block, in fixed point. The presentation
/// shell converts it to its float layout unchanged.
#[derive(Clone, Copy, PartialEq, Eq, Structural, Debug)]
pub struct GPUCamera {
    pub camera_position: Vec3Fp,
    pub camera_forwards: Vec3Fp,
    pub camera_right: Vec3Fp,
    pub camera_up: Vec3Fp,
    pub pixel_00: Vec3Fp,
    pub du: Vec3Fp,
    pub dv: Vec3Fp,
    pub defocus_radius: i64,
}

/// One axis of the derivation: the pixel steps and the pixel (0, 0) centre
/// along that axis.
fn derive_axis(pos_c: i64, fwd_c: i64, right_c: i64, up_c: i64, focus: i64, vh: i64, w: i64, h:
    i64) -> (r: (i64, i64, i64))
    requires
        -2 * FP_ONE <= fwd_c <= 2 * FP_ONE,
        -2 * FP_ONE <= right_c <= 2 * FP_ONE,
        -2 * FP_ONE <= up_c <= 2 * FP_ONE,
        0 <= focus <= FOCUS_LIMIT,
        0 <= vh <= 8589934592,
        1 <= w <= MAX_DIM,
        1 <= h <= MAX_DIM,
        -POS_LIMIT <= pos_c <= POS_LIMIT,
    ensures
        r.0 as int == du_comp(right_c as int, vh as int, w as int, h as int),
        r.1 as int == dv_comp(up_c as int, vh as int, h as int),
        r.2 as int == pixel00_comp(
            upper_left_comp(
                pos_c as int,
                fwd_c as int,
                focus as int,
                viewport_u_comp(right_c as int, vh as int, w as int, h as int),
                viewport_v_comp(up_c as int, vh as int),
            ),
            r.0 as int,
            r.1 as int,
        ),
{
    proof {
        lemma_fp_mul_bound(right_c as int, vh as int, 131072, 8589934592, 17179869184);
        lemma_fp_mul_bound(up_c as int, vh as int, 131072, 8589934592, 17179869184);
        lemma_fp_mul_bound(fwd_c as int, focus as int, 131072, 67108864, 134217728);
        lemma_mul_bound(fp_mul_spec(right_c as int, vh as int), w as int, 17179869184, 16384);
    }
    let tu = fpmul(right_c, vh);
    let u_c = divt(tu * w, h);
    let v_c = -fpmul(up_c, vh);
    proof {
        lemma_tdiv_abs((tu * w) as int, h as int, 281474976710656);
        lemma_tdiv_abs(u_c as int, w as int, 281474976710656);
        lemma_tdiv_abs(v_c as int, h as int, 17179869184);
        lemma_tdiv_abs(u_c as int, 2, 281474976710656);
        lemma_tdiv_abs(v_c as int, 2, 17179869184);
    }
    let du_c = divt(u_c, w);
    let dv_c = divt(v_c, h);
    let fw_c = fpmul(fwd_c, focus);
    let ul_c = pos_c + fw_c - divt(u_c, 2) - divt(v_c, 2);
    proof {
        lemma_tdiv_abs((du_c + dv_c) as int, 2, 562949953421312);
    }
    let p00_c = ul_c + divt(du_c + dv_c, 2);
    (du_c, dv_c, p00_c)
}

impl GPUCamera {
    /// Derive the packed camera block from a camera pose and the viewport's
    /// pixel extent. `tan_half_vfov` and `tan_half_defocus` are
    /// `tan(radians(vfov) / 2)` and `tan(radians(defocus_angle) / 2)` in
    /// fixed point, computed by the caller. With a zero defocus tangent the
    /// lens radius is exactly zero: a pinhole camera.
    pub fn new(camera: &Camera, image_size: (u32, u32), tan_half_vfov: i64, tan_half_defocus:
        i64) -> (r: GPUCamera)
        requires
            camera_in_range(*camera),
            0 <= tan_half_vfov <= TAN_LIMIT,
            0 <= tan_half_defocus <= TAN_LIMIT,
            1 <= image_size.0 <= MAX_DIM,
            1 <= image_size.1 <= MAX_DIM,
        ensures
            r.camera_position == camera.position,
            r.camera_forwards == camera.forwards,
            r.camera_right == camera.right,
            r.camera_up == camera.up,
            r.defocus_radius as int == lens_radius_spec(
                camera.focus_distance as int,
                tan_half_defocus as int,
            ),
            tan_half_defocus == 0 ==> r.defocus_radius == 0,
            ({
                let vh = viewport_height_spec(tan_half_vfov as int, camera.focus_distance as int);
                let w = image_size.0 as int;
                let h = image_size.1 as int;
                &&& r.du.x as int == du_comp(camera.right.x as int, vh, w, h)
                &&& r.du.y as int == du_comp(camera.right.y as int, vh, w, h)
                &&& r.du.z as int == du_comp(camera.right.z as int, vh, w, h)
                &&& r.dv.x as int == dv_comp(camera.up.x as int, vh, h)
                &&& r.dv.y as int == dv_comp(camera.up.y as int, vh, h)
                &&& r.dv.z as int == dv_comp(camera.up.z as int, vh, h)
                &&& r.pixel_00.x as int == pixel00_comp(
                    upper_left_comp(
                        camera.position.x as int,
                        camera.forwards.x as int,
                        camera.focus_distance as int,
                        viewport_u_comp(camera.right.x as int, vh, w, h),
                        viewport_v_comp(camera.up.x as int, vh),
                    ),
                    r.du.x as int,
                    r.dv.x as int,
                )
                &&& r.pixel_00.y as int == pixel00_comp(
                    upper_left_comp(
                        camera.position.y as int,
                        camera.forwards.y as int,
                        camera.focus_distance as int,
                        viewport_u_comp(camera.right.y as int, vh, w, h),
                        viewport_v_comp(camera.up.y as int, vh),
                    ),
                    r.du.y as int,
                    r.dv.y as int,
                )
                &&& r.pixel_00.z as int == pixel00_comp(
                    upper_left_comp(
                        camera.position.z as int,
                        camera.forwards.z as int,
                        camera.focus_distance as int,
                        viewport_u_comp(camera.right.z as int, vh, w, h),
                        viewport_v_comp(camera.up.z as int, vh),
                    ),
                    r.du.z as int,
                    r.dv.z as int,
                )
            }),
    {
        proof {
            lemma_fp_mul_bound(
                camera.focus_distance as int,
                tan_half_defocus as int,
                67108864,
                4194304,
                4294967296,
            );
            lemma_fp_mul_bound(
                tan_half_vfov as int,
                camera.focus_distance as int,
                4194304,
                67108864,
                4294967296,
            );
            lemma_fp_mul_nonneg(tan_half_vfov as int, camera.focus_distance as int);
            lemma_fp_mul_nonneg(camera.focus_distance as int, tan_half_defocus as int);
            if tan_half_defocus == 0 {
                assert((camera.focus_distance as int) * 0 == 0);
                assert(fp_mul_spec(camera.focus_distance as int, 0) == 0);
            }
        }
        let defocus_radius = fpmul(camera.focus_distance, tan_half_defocus);
        let vh = 2 * fpmul(tan_half_vfov, camera.focus_distance);
        let w = image_size.0 as i64;
        let h = image_size.1 as i64;
        let rx = derive_axis(
            camera.position.x,
            camera.forwards.x,
            camera.right.x,
            camera.up.x,
            camera.focus_distance,
            vh,
            w,
            h,
        );
        let ry = derive_axis(
            camera.position.y,
            camera.forwards.y,
            camera.right.y,
            camera.up.y,
            camera.focus_distance,
            vh,
            w,
            h,
        );
        let rz = derive_axis(
            camera.position.z,
            camera.forwards.z,
            camera.right.z,
            camera.up.z,
            camera.focus_distance,
            vh,
            w,
            h,
        );
        GPUCamera {
            camera_position: camera.position,
            camera_forwards: camera.forwards,
            camera_right: camera.right,
            camera_up: camera.up,
            pixel_00: Vec3Fp { x: rx.2, y: ry.2, z: rz.2 },
            du: Vec3Fp { x: rx.0, y: ry.0, z: rz.0 },
            dv: Vec3Fp { x: rx.1, y: ry.1, z: rz.1 },
            defocus_radius,
        }
    }
}

} // verus!
