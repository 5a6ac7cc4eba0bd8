use wiw::{BVHTree, FrameEvent, InitError, Material, RenderProgress, ResourceOrchestrator,
    SamplingParameters, Scene, Sphere, Stage, Vec3Fp};

const FP: i64 = 65536;

fn two_sphere_setup() -> (Scene, BVHTree) {
    let spheres = vec![
        Sphere::new(Vec3Fp::new(0, -100 * FP - FP / 2, -FP), 100 * FP, 0),
        Sphere::new(Vec3Fp::new(0, 0, -FP), FP / 2, 1),
    ];
    let materials = vec![
        Material::Lambertian(Vec3Fp::new(FP / 2, FP / 2, 0)),
        Material::Dielectric(3 * FP / 2),
    ];
    let mut scene = Scene::new(spheres, materials).expect("valid scene");
    let mut tree = BVHTree::new(scene.spheres.len());
    tree.build_bvh_tree(&mut scene.spheres);
    (scene, tree)
}

#[test]
fn initialize_records_capacity_and_sizes() {
    let (scene, tree) = two_sphere_setup();
    let orch = ResourceOrchestrator::initialize(1920 * 1080, (800, 600), &scene, &tree)
        .expect("init");
    assert_eq!(orch.capacity, 1920 * 1080);
    assert_eq!((orch.viewport_width, orch.viewport_height), (800, 600));
    assert_eq!(orch.num_primitives, 2);
    assert_eq!(orch.num_nodes, 3);
    assert_eq!(orch.num_materials, 2);
    assert!(orch.alive);
}

#[test]
fn initialize_rejects_zero_capacity() {
    let (scene, tree) = two_sphere_setup();
    let r = ResourceOrchestrator::initialize(0, (800, 600), &scene, &tree);
    assert_eq!(r.unwrap_err(), InitError::ZeroCapacity);
}

#[test]
fn initialize_rejects_viewport_over_capacity() {
    let (scene, tree) = two_sphere_setup();
    let r = ResourceOrchestrator::initialize(100, (800, 600), &scene, &tree);
    assert_eq!(r.unwrap_err(), InitError::ViewportOverCapacity);
}

#[test]
fn resize_reconfigures_without_reallocating() {
    let (scene, tree) = two_sphere_setup();
    let mut orch = ResourceOrchestrator::initialize(1920 * 1080, (800, 600), &scene, &tree)
        .expect("init");
    let mut progress = RenderProgress::new(100);
    let mut sampling = SamplingParameters::default();
    progress.progress(5);
    progress.progress(5);

    orch.resize((1600, 900), &mut progress, &mut sampling);
    assert_eq!(orch.capacity, 1920 * 1080, "resize never reallocates");
    assert_eq!((orch.viewport_width, orch.viewport_height), (1600, 900));
    assert_eq!(progress.frame(), 0, "resize unconditionally resets accumulation");
    assert_eq!(progress.accumulated_samples(), 0);
    assert_eq!(sampling.clear_image_buffer, 1);

    orch.resize((320, 200), &mut progress, &mut sampling);
    assert_eq!(orch.capacity, 1920 * 1080);
}

#[test]
fn dispatch_is_compute_then_display() {
    let (scene, tree) = two_sphere_setup();
    let orch = ResourceOrchestrator::initialize(1 << 22, (800, 600), &scene, &tree)
        .expect("init");
    let progress = RenderProgress::new(100);
    let plan = orch.dispatch(&progress);
    assert_eq!(plan.len(), 2);
    assert_eq!(plan[0], Stage::Compute { width: 800, height: 600 });
    assert_eq!(plan[1], Stage::Display);
}

#[test]
fn dispatch_skipped_when_converged() {
    let (scene, tree) = two_sphere_setup();
    let orch = ResourceOrchestrator::initialize(1 << 22, (800, 600), &scene, &tree)
        .expect("init");
    let mut progress = RenderProgress::new(10);
    progress.progress(10);
    assert!(progress.done());
    assert!(orch.dispatch(&progress).is_empty());
}

#[test]
fn dispatch_skipped_for_empty_scene() {
    let scene = Scene::new(vec![], vec![]).expect("empty scene is valid");
    let mut tree = BVHTree::new(0);
    let mut spheres = scene.spheres;
    tree.build_bvh_tree(&mut spheres);
    let scene = Scene::new(spheres, vec![]).expect("still valid");
    let orch = ResourceOrchestrator::initialize(1 << 22, (800, 600), &scene, &tree)
        .expect("init");
    let progress = RenderProgress::new(100);
    assert!(orch.dispatch(&progress).is_empty());
}

#[test]
fn transient_surface_failure_changes_nothing() {
    let (scene, tree) = two_sphere_setup();
    let mut orch = ResourceOrchestrator::initialize(1 << 22, (800, 600), &scene, &tree)
        .expect("init");
    let mut progress = RenderProgress::new(100);
    let mut sampling = SamplingParameters::default();
    progress.progress(5);
    orch.handle_event(FrameEvent::SurfaceUnavailable, &mut progress, &mut sampling);
    assert!(orch.alive);
    assert_eq!(progress.frame(), 1);
    assert_eq!(progress.accumulated_samples(), 5);
    assert_eq!(sampling.clear_image_buffer, 0);
}

#[test]
fn device_loss_is_fatal_and_resets() {
    let (scene, tree) = two_sphere_setup();
    let mut orch = ResourceOrchestrator::initialize(1 << 22, (800, 600), &scene, &tree)
        .expect("init");
    let mut progress = RenderProgress::new(100);
    let mut sampling = SamplingParameters::default();
    progress.progress(5);
    orch.handle_event(FrameEvent::DeviceLost, &mut progress, &mut sampling);
    assert!(!orch.alive);
    assert_eq!(progress.frame(), 0);
    assert_eq!(progress.accumulated_samples(), 0);
    assert_eq!(sampling.clear_image_buffer, 1);
    assert!(orch.dispatch(&progress).is_empty(), "a dead orchestrator dispatches nothing");
}

#[test]
fn update_frame_carries_viewport_and_counters() {
    let (scene, tree) = two_sphere_setup();
    let orch = ResourceOrchestrator::initialize(1 << 22, (800, 600), &scene, &tree)
        .expect("init");
    let mut progress = RenderProgress::new(100);
    progress.progress(5);
    let mut sampling = SamplingParameters::default();
    sampling.reset();
    let (frame, gpu_sampling) = orch.update_frame(&progress, &sampling);
    assert_eq!(frame.width, 800);
    assert_eq!(frame.height, 600);
    assert_eq!(frame.frame, 1);
    assert_eq!(frame.accumulated_samples, 5);
    assert_eq!(gpu_sampling.samples_per_pixel, 100);
    assert_eq!(gpu_sampling.num_bounces, 50);
    assert_eq!(gpu_sampling.samples_per_frame, 5);
    assert_eq!(gpu_sampling.clear_image_buffer, 1);
}

#[test]
fn initialize_rejects_mismatched_geometry() {
    let (scene, _) = two_sphere_setup();
    let wrong_tree = BVHTree::new(9);
    let r = ResourceOrchestrator::initialize(1 << 22, (800, 600), &scene, &wrong_tree);
    assert_eq!(r.unwrap_err(), InitError::GeometryMismatch);
}
