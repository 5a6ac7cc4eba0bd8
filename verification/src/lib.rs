//! Core of a progressive, BVH-accelerated sphere ray tracer.
//!
//! The library holds the CPU-side logic that the renderer depends on: scene
//! validation, the bounding-volume-hierarchy builder, the camera block
//! derivation, the progressive-accumulation state machine, and the resource
//! orchestration decisions for the two-stage (compute-then-display) pipeline.
//! All geometry is carried in fixed-point coordinates; the GPU-facing shell
//! converts to its own packed float layouts at the boundary.

pub mod bvh;
pub mod camera;
pub mod gpu_structs;
pub mod gpu_timing;
pub mod material;
pub mod orchestrator;
pub mod progress;
pub mod scene;
pub mod sphere;
pub mod util_funcs;
pub mod vecmath;

pub use bvh::Aabb;
pub use bvh::BVHTree;
pub use bvh::BvhNode;
pub use camera::Camera;
pub use camera::GPUCamera;
pub use gpu_structs::get_gpu_sampling_params;
pub use gpu_structs::GPUFrameBuffer;
pub use gpu_structs::GPUSamplingParameters;
pub use gpu_timing::QueryResults;
pub use gpu_timing::NUM_QUERIES;
pub use material::Material;
pub use orchestrator::FrameEvent;
pub use orchestrator::InitError;
pub use orchestrator::ResourceOrchestrator;
pub use orchestrator::Stage;
pub use progress::sync_frame_state;
pub use progress::RenderParameters;
pub use progress::RenderProgress;
pub use progress::SamplingParameters;
pub use scene::Scene;
pub use scene::SceneError;
pub use sphere::Sphere;
pub use util_funcs::random_u32;
pub use util_funcs::shuffle_array;
pub use vecmath::reflect;
pub use vecmath::Vec3Fp;
