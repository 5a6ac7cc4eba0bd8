//! The resource-lifecycle decisions of the two-stage renderer.
//!
//! The GPU objects themselves (buffers, pipelines, the surface) live with
//! the presentation shell; what is verified here is the state that spans
//! frames and every decision taken on it: the one-time allocation at
//! worst-case capacity, resizing without reallocation, the per-frame uniform
//! values, the strict compute-then-display dispatch order, and the reaction
//! to per-frame failures and device loss.

use vstd::prelude::*;
use crate::bvh::BVHTree;
use crate::gpu_structs::{get_gpu_sampling_params, GPUFrameBuffer, GPUSamplingParameters};
use crate::progress::{RenderProgress, SamplingParameters};
use crate::scene::Scene;

verus! {

/// One stage of a frame's command sequence, in submission order.
#[derive(Clone, Copy, PartialEq, Eq, Structural, Debug)]
pub enum Stage {
    /// The compute pass: one work unit per logical pixel, writing the
    /// accumulation image.
    Compute { width: u32, height: u32 },
    /// The display pass: reads the accumulation image into the presented
    /// surface; ordered after the compute pass of the same frame.
    Display,
}

/// What the presentation layer reports about a frame attempt.
#[derive(Clone, Copy, PartialEq, Eq, Structural, Debug)]
pub enum FrameEvent {
    /// The frame was submitted and presented.
    Presented,
    /// The presentation target was momentarily unavailable: skip this frame,
    /// retry on the next redraw, change nothing.
    SurfaceUnavailable,
    /// The device or context was lost: fatal for this orchestrator instance.
    DeviceLost,
}

/// Why the orchestrator could not be initialized.
#[derive(Clone, Copy, PartialEq, Eq, Structural, Debug)]
pub enum InitError {
    /// No usable maximum buffer capacity was determined.
    ZeroCapacity,
    /// The initial viewport does not fit the reserved capacity.
    ViewportOverCapacity,
    /// The BVH was prepared for a different primitive count than the scene
    /// holds (for instance, empty geometry where primitives were expected).
    GeometryMismatch,
}

/// The cross-frame GPU-resident state, as values: the reserved accumulation
/// capacity (in pixels), the logical viewport, the sizes of the immutable
/// scene uploads, and whether the device is still usable.
#[derive(Clone, Copy, Debug)]
pub struct ResourceOrchestrator {
    pub capacity: u64,
    pub viewport_width: u32,
    pub viewport_height: u32,
    pub num_primitives: usize,
    pub num_nodes: usize,
    pub num_materials: usize,
    pub alive: bool,
}

impl ResourceOrchestrator {
    /// Reserve the accumulation image at the largest supported viewport
    /// (`max_viewport_capacity` pixels, never reallocated afterwards) and
    /// record the sizes of the one-time scene, material and BVH uploads.
    /// Fails exactly when no capacity was determined, the initial viewport
    /// exceeds it, or the BVH does not belong to the scene's primitive count.
    pub fn initialize(
        max_viewport_capacity: u64,
        viewport: (u32, u32),
        scene: &Scene,
        bvh: &BVHTree,
    ) -> (r: Result<ResourceOrchestrator, InitError>)
        ensures
            r is Ok <==> (max_viewport_capacity >= 1 && (viewport.0 as u64) * (viewport.1 as u64)
                <= max_viewport_capacity && bvh.num_primitives == scene.spheres@.len()),
            r == Result::<ResourceOrchestrator, InitError>::Err(InitError::ZeroCapacity) <==> (
            max_viewport_capacity == 0),
            r == Result::<ResourceOrchestrator, InitError>::Err(InitError::ViewportOverCapacity)
                <==> (max_viewport_capacity >= 1 && (viewport.0 as u64) * (viewport.1 as u64)
                > max_viewport_capacity),
            r == Result::<ResourceOrchestrator, InitError>::Err(InitError::GeometryMismatch) <==> (
            max_viewport_capacity >= 1 && (viewport.0 as u64) * (viewport.1 as u64)
                <= max_viewport_capacity && bvh.num_primitives != scene.spheres@.len()),
            r matches Ok(o) ==> o == (ResourceOrchestrator {
                capacity: max_viewport_capacity,
                viewport_width: viewport.0,
                viewport_height: viewport.1,
                num_primitives: scene.spheres@.len() as usize,
                num_nodes: bvh.nodes@.len() as usize,
                num_materials: scene.materials@.len() as usize,
                alive: true,
            }),
    {
        if max_viewport_capacity == 0 {
            return Err(InitError::ZeroCapacity);
        }
        proof {
            assert((viewport.0 as int) * (viewport.1 as int) < 0x1_0000_0000_0000_0000)
                by (nonlinear_arith)
                requires
                    0 <= viewport.0 < 0x1_0000_0000,
                    0 <= viewport.1 < 0x1_0000_0000,
            ;
        }
        let pixels = (viewport.0 as u64) * (viewport.1 as u64);
        if pixels > max_viewport_capacity {
            return Err(InitError::ViewportOverCapacity);
        }
        if bvh.num_primitives != scene.spheres.len() {
            return Err(InitError::GeometryMismatch);
        }
        Ok(
            ResourceOrchestrator {
                capacity: max_viewport_capacity,
                viewport_width: viewport.0,
                viewport_height: viewport.1,
                num_primitives: scene.spheres.len(),
                num_nodes: bvh.nodes.len(),
                num_materials: scene.materials.len(),
                alive: true,
            },
        )
    }

    /// Reconfigure the presentation target to a new logical size. The
    /// reserved capacity is untouched — no reallocation ever — and the
    /// progressive accumulation is unconditionally RESET, with the clear
    /// flag raised for the following frame.
    pub fn resize(
        &mut self,
        new_size: (u32, u32),
        progress: &mut RenderProgress,
        sampling: &mut SamplingParameters,
    )
        requires
            (new_size.0 as u64) * (new_size.1 as u64) <= old(self).capacity,
        ensures
            *final(self) == (ResourceOrchestrator {
                viewport_width: new_size.0,
                viewport_height: new_size.1,
                ..*old(self)
            }),
            final(self).capacity == old(self).capacity,
            final(progress).frame == 0,
            final(progress).accumulated_samples == 0,
            final(progress).samples_per_pixel == old(progress).samples_per_pixel,
            *final(sampling) == (SamplingParameters {
                clear_image_buffer: 1u32,
                ..*old(sampling)
            }),
    {
        self.viewport_width = new_size.0;
        self.viewport_height = new_size.1;
        progress.reset();
        sampling.reset();
    }

    /// The per-frame uniform values written to the GPU-resident buffers:
    /// the frame block carries the logical viewport and the progressive
    /// counters, the sampling block mirrors the sampling parameters.
    pub fn update_frame(&self, progress: &RenderProgress, sampling: &SamplingParameters) -> (r: (
        GPUFrameBuffer,
        GPUSamplingParameters,
    ))
        ensures
            r.0 == (GPUFrameBuffer {
                width: self.viewport_width,
                height: self.viewport_height,
                frame: progress.frame,
                accumulated_samples: progress.accumulated_samples,
            }),
            r.1.samples_per_pixel == sampling.samples_per_pixel,
            r.1.num_bounces == sampling.num_bounces,
            r.1.samples_per_frame == sampling.samples_per_frame,
            r.1.clear_image_buffer == sampling.clear_image_buffer,
    {
        (
            GPUFrameBuffer::new(
                self.viewport_width,
                self.viewport_height,
                progress.frame,
                progress.accumulated_samples,
            ),
            get_gpu_sampling_params(sampling),
        )
    }

    /// The command sequence of one redraw: nothing at all when the device is
    /// lost, the scene holds no geometry, or the render has converged;
    /// otherwise exactly the compute pass over the logical viewport followed
    /// by the display pass, in that order.
    pub fn dispatch(&self, progress: &RenderProgress) -> (r: Vec<Stage>)
        ensures
            (!self.alive || self.num_primitives == 0 || progress.accumulated_samples
                >= progress.samples_per_pixel) ==> r@.len() == 0,
            (self.alive && self.num_primitives > 0 && progress.accumulated_samples
                < progress.samples_per_pixel) ==> (r@.len() == 2 && r@[0] == (Stage::Compute {
                width: self.viewport_width,
                height: self.viewport_height,
            }) && r@[1] == Stage::Display),
    {
        let mut plan: Vec<Stage> = Vec::new();
        if self.alive && self.num_primitives > 0 && !progress.done() {
            plan.push(Stage::Compute { width: self.viewport_width, height: self.viewport_height });
            plan.push(Stage::Display);
        }
        plan
    }

    /// Absorb the outcome of a frame attempt. A presented frame and a
    /// momentarily unavailable surface change nothing here (the skipped
    /// frame is simply retried); device loss marks the orchestrator dead and
    /// discards the in-flight accumulation, as a RESET, until a full
    /// re-initialization replaces it.
    pub fn handle_event(
        &mut self,
        event: FrameEvent,
        progress: &mut RenderProgress,
        sampling: &mut SamplingParameters,
    )
        ensures
            event != FrameEvent::DeviceLost ==> (*final(self) == *old(self) && *final(progress)
                == *old(progress) && *final(sampling) == *old(sampling)),
            event == FrameEvent::DeviceLost ==> ({
                &&& *final(self) == (ResourceOrchestrator { alive: false, ..*old(self) })
                &&& final(progress).frame == 0
                &&& final(progress).accumulated_samples == 0
                &&& final(progress).samples_per_pixel == old(progress).samples_per_pixel
                &&& *final(sampling) == (SamplingParameters {
                    clear_image_buffer: 1u32,
                    ..*old(sampling)
                })
            }),
    {
        match event {
            FrameEvent::Presented => {},
            FrameEvent::SurfaceUnavailable => {},
            FrameEvent::DeviceLost => {
                self.alive = false;
                progress.reset();
                sampling.reset();
            },
        }
    }
}

} // verus!
