use wiw::{sync_frame_state, Camera, RenderParameters, RenderProgress, SamplingParameters,
    Vec3Fp};

const FP: i64 = 65536;

fn test_camera() -> Camera {
    Camera::new(
        Vec3Fp::new(13 * FP, 2 * FP, 3 * FP),
        Vec3Fp::new(-FP, 0, 0),
        Vec3Fp::new(0, 0, FP),
        Vec3Fp::new(0, FP, 0),
        20 * FP,
        0,
        10 * FP,
    )
}

#[test]
fn accumulator_counts_frames_and_samples() {
    let mut p = RenderProgress::new(100);
    for k in 1..=19u32 {
        let done = p.progress(5);
        assert_eq!(p.frame(), k);
        assert_eq!(p.accumulated_samples(), 5 * k);
        assert!(!done, "must not be done before the target");
        assert!(!p.done());
    }
    let done = p.progress(5);
    assert_eq!(p.frame(), 20);
    assert_eq!(p.accumulated_samples(), 100);
    assert!(done, "first done exactly at frame 20 with target 100 and 5 per frame");
    assert!(p.done());
}

#[test]
fn done_stays_true_after_threshold() {
    let mut p = RenderProgress::new(12);
    assert!(!p.progress(5));
    assert!(!p.progress(5));
    assert!(p.progress(5));
    assert!(p.progress(5));
    assert!(p.done());
}

#[test]
fn reset_zeroes_counters_and_keeps_target() {
    let mut p = RenderProgress::new(64);
    p.progress(7);
    p.progress(7);
    p.reset();
    assert_eq!(p.frame(), 0);
    assert_eq!(p.accumulated_samples(), 0);
    assert!(!p.done());
    p.progress(64);
    assert!(p.done());
}

#[test]
fn sampling_defaults() {
    let sp = SamplingParameters::default();
    assert_eq!(sp.samples_per_pixel, 100);
    assert_eq!(sp.num_bounces, 50);
    assert_eq!(sp.samples_per_frame, 5);
    assert_eq!(sp.clear_image_buffer, 0);
    let p = RenderProgress::default();
    assert_eq!(p.frame(), 0);
    assert_eq!(p.accumulated_samples(), 0);
}

#[test]
fn clear_flag_set_and_consumed() {
    let mut sp = SamplingParameters::default();
    sp.reset();
    assert_eq!(sp.clear_image_buffer, 1);
    sp.accumulate();
    assert_eq!(sp.clear_image_buffer, 0);
}

#[test]
fn parameter_change_forces_reset_for_one_frame() {
    let cam = test_camera();
    let mut rp = RenderParameters::new(cam, SamplingParameters::default(), (800, 600));
    let mut last = rp;
    let mut progress = RenderProgress::new(100);
    progress.progress(5);
    progress.progress(5);

    // Frame N -> N+1: the camera moved.
    let mut moved = cam;
    moved.position = Vec3Fp::new(14 * FP, 2 * FP, 3 * FP);
    rp.update_camera(moved);
    assert!(rp.invalidates(&last));
    sync_frame_state(&mut rp, &last, &mut progress);
    assert_eq!(progress.frame(), 0);
    assert_eq!(progress.accumulated_samples(), 0);
    assert_eq!(rp.sampling_parameters.clear_image_buffer, 1);

    // The following frame sees no change: the clear flag is consumed.
    last = rp;
    sync_frame_state(&mut rp, &last, &mut progress);
    assert_eq!(rp.sampling_parameters.clear_image_buffer, 0);
    assert_eq!(progress.frame(), 0);
}

#[test]
fn viewport_change_invalidates() {
    let cam = test_camera();
    let mut rp = RenderParameters::new(cam, SamplingParameters::default(), (800, 600));
    let last = rp;
    rp.set_viewport((1024, 768));
    assert!(rp.invalidates(&last));
    assert_eq!(rp.get_viewport(), (1024, 768));
}

#[test]
fn clear_flag_alone_does_not_invalidate() {
    let cam = test_camera();
    let mut rp = RenderParameters::new(cam, SamplingParameters::default(), (800, 600));
    let last = rp;
    rp.sampling_parameters.reset();
    assert!(!rp.invalidates(&last), "the one-shot clear flag is not a parameter");
}

#[test]
fn sampling_parameter_change_invalidates() {
    let cam = test_camera();
    let mut rp = RenderParameters::new(cam, SamplingParameters::default(), (800, 600));
    let last = rp;
    rp.sampling_parameters.samples_per_frame = 9;
    assert!(rp.invalidates(&last));
}
