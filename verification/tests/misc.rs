use wiw::{get_gpu_sampling_params, random_u32, reflect, shuffle_array, GPUFrameBuffer,
    QueryResults, SamplingParameters, Vec3Fp, NUM_QUERIES};

const FP: i64 = 65536;

#[test]
fn raw_timestamps_decode_in_slot_order() {
    assert_eq!(NUM_QUERIES, 6);
    let r = QueryResults::from_raw_results(vec![10, 20, 30, 40, 50, 60]);
    assert_eq!(r.encoder_timestamps, [10, 60]);
    assert_eq!(r.compute_start_end_timestamps, [20, 30]);
    assert_eq!(r.render_start_end_timestamps, [40, 50]);
}

#[test]
fn elapsed_ticks_subtracts_and_wraps() {
    let r = QueryResults::from_raw_results(vec![100, 200, 260, 300, 390, 500]);
    let (total, compute, render) = r.elapsed_ticks();
    assert_eq!(total, 400);
    assert_eq!(compute, 60);
    assert_eq!(render, 90);

    let wrapped = QueryResults::from_raw_results(vec![u64::MAX - 9, 0, 0, 0, 0, 5]);
    let (total, _, _) = wrapped.elapsed_ticks();
    assert_eq!(total, 15, "the tick counter wraps around");
}

#[test]
fn gpu_sampling_params_mirror_fields() {
    let mut sp = SamplingParameters::default();
    sp.samples_per_frame = 7;
    sp.reset();
    let gpu = get_gpu_sampling_params(&sp);
    assert_eq!(gpu.samples_per_pixel, 100);
    assert_eq!(gpu.num_bounces, 50);
    assert_eq!(gpu.samples_per_frame, 7);
    assert_eq!(gpu.clear_image_buffer, 1);
}

#[test]
fn frame_buffer_holds_given_values() {
    let f = GPUFrameBuffer::new(1600, 900, 12, 60);
    assert_eq!((f.width, f.height, f.frame, f.accumulated_samples), (1600, 900, 12, 60));
}

#[test]
fn reflect_mirrors_about_normal() {
    let incident = Vec3Fp::new(FP, -FP, 0);
    let normal = Vec3Fp::new(0, FP, 0);
    let r = reflect(incident, normal);
    assert_eq!(r, Vec3Fp::new(FP, FP, 0));
}

#[test]
fn reflect_leaves_parallel_component() {
    let incident = Vec3Fp::new(3 * FP, -2 * FP, FP);
    let normal = Vec3Fp::new(0, FP, 0);
    let r = reflect(incident, normal);
    assert_eq!(r, Vec3Fp::new(3 * FP, 2 * FP, FP));
}

#[test]
fn shuffle_keeps_exactly_the_members() {
    let input: Vec<u32> = (0..50).collect();
    let mut shuffled = shuffle_array(input.clone());
    shuffled.sort();
    assert_eq!(shuffled, input);
}

#[test]
fn random_draw_returns() {
    let a = random_u32();
    let b = random_u32();
    let _ = a.wrapping_add(b);
}
