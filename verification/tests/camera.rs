use wiw::{Camera, GPUCamera, Vec3Fp};

const FP: i64 = 65536;

fn fp(v: f64) -> i64 {
    (v * FP as f64).round() as i64
}

fn to_f(v: i64) -> f64 {
    v as f64 / FP as f64
}

fn axis_camera() -> Camera {
    Camera::new(
        Vec3Fp::new(0, 0, FP),
        Vec3Fp::new(0, 0, -FP),
        Vec3Fp::new(FP, 0, 0),
        Vec3Fp::new(0, FP, 0),
        90 * FP,
        0,
        fp(3.4),
    )
}

#[test]
fn zero_defocus_angle_gives_zero_lens_radius() {
    let cam = axis_camera();
    let block = GPUCamera::new(&cam, (800, 600), fp(1.0), 0);
    assert_eq!(block.defocus_radius, 0, "pinhole camera: no depth of field");
}

#[test]
fn nonzero_defocus_gives_positive_lens_radius() {
    let cam = axis_camera();
    // tan(half of 0.6 degrees) ~= 0.005236
    let block = GPUCamera::new(&cam, (800, 600), fp(1.0), fp(0.005236));
    let expected = 3.4 * 0.005236;
    assert!((to_f(block.defocus_radius) - expected).abs() < 1e-3);
}

#[test]
fn camera_block_copies_pose() {
    let cam = axis_camera();
    let block = GPUCamera::new(&cam, (640, 480), fp(1.0), 0);
    assert_eq!(block.camera_position, cam.position);
    assert_eq!(block.camera_forwards, cam.forwards);
    assert_eq!(block.camera_right, cam.right);
    assert_eq!(block.camera_up, cam.up);
}

#[test]
fn derivation_gives_exact_fixed_point_values() {
    // tan of half the field of view is exactly 1.0; focus 3.4 units.
    let cam = axis_camera();
    let block = GPUCamera::new(&cam, (200, 100), FP, 0);
    // viewport height = 2 * 1.0 * 3.4 = 445644 in fixed point;
    // du.x = ((1.0 * vh) * 200 / 100) / 200 truncated.
    assert_eq!(block.du.x, 4456);
    assert_eq!(block.du.y, 0);
    assert_eq!(block.dv.y, -4456);
    assert_eq!(block.dv.x, 0);
    // pixel00.x = -viewport_u.x / 2 + (du.x + dv.x) / 2.
    assert_eq!(block.pixel_00.x, -445644 + 2228);
}

#[test]
fn bottom_right_pixel_matches_analytic_value() {
    let cam = axis_camera();
    let (w, h) = (200u32, 100u32);
    let tan_half_vfov = 1.0f64;  // vfov of 90 degrees
    let block = GPUCamera::new(&cam, (w, h), fp(tan_half_vfov), 0);

    // Analytic derivation in floating point.
    let focus = 3.4f64;
    let position = [0.0, 0.0, 1.0];
    let forwards = [0.0, 0.0, -1.0];
    let right = [1.0, 0.0, 0.0];
    let up = [0.0, 1.0, 0.0];
    let vh = 2.0 * tan_half_vfov * focus;
    let vw = vh * (w as f64) / (h as f64);
    let mut expect_br = [0.0f64; 3];
    for i in 0..3 {
        let vu = vw * right[i];
        let vv = -vh * up[i];
        let du = vu / w as f64;
        let dv = vv / h as f64;
        let upper_left = position[i] + focus * forwards[i] - 0.5 * (vu + vv);
        let pixel00 = upper_left + 0.5 * (du + dv);
        expect_br[i] = pixel00 + (w as f64 - 1.0) * du + (h as f64 - 1.0) * dv;
    }

    let got_du = [to_f(block.du.x), to_f(block.du.y), to_f(block.du.z)];
    let got_dv = [to_f(block.dv.x), to_f(block.dv.y), to_f(block.dv.z)];
    let got_p00 = [to_f(block.pixel_00.x), to_f(block.pixel_00.y), to_f(block.pixel_00.z)];
    for i in 0..3 {
        let got_br = got_p00[i] + (w as f64 - 1.0) * got_du[i] + (h as f64 - 1.0) * got_dv[i];
        assert!(
            (got_br - expect_br[i]).abs() < 0.02,
            "axis {}: got {} expected {}",
            i,
            got_br,
            expect_br[i]
        );
    }
}
