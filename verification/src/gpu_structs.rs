//! CPU-side images of the uniform blocks the GPU kernels read. The
//! presentation shell packs these into its own `repr(C)` layouts; the fields
//! and their values are fixed here.

use vstd::prelude::*;
use crate::progress::SamplingParameters;

verus! {

/// The sampling-parameter uniform block.
#[derive(Clone, Copy, PartialEq, Eq, Structural, Debug)]
pub struct GPUSamplingParameters {
    pub samples_per_pixel: u32,
    pub num_bounces: u32,
    pub samples_per_frame: u32,
    pub clear_image_buffer: u32,
}

/// Pack the sampling parameters into their uniform block, field for field.
pub fn get_gpu_sampling_params(sampling_parameters: &SamplingParameters) -> (r:
    GPUSamplingParameters)
    ensures
        r.samples_per_pixel == sampling_parameters.samples_per_pixel,
        r.num_bounces == sampling_parameters.num_bounces,
        r.samples_per_frame == sampling_parameters.samples_per_frame,
        r.clear_image_buffer == sampling_parameters.clear_image_buffer,
{
    GPUSamplingParameters {
        samples_per_pixel: sampling_parameters.samples_per_pixel,
        num_bounces: sampling_parameters.num_bounces,
        samples_per_frame: sampling_parameters.samples_per_frame,
        clear_image_buffer: sampling_parameters.clear_image_buffer,
    }
}

/// The per-frame uniform block: viewport extent and progressive counters.
#[derive(Clone, Copy, PartialEq, Eq, Structural, Debug)]
pub struct GPUFrameBuffer {
    pub width: u32,
    pub height: u32,
    pub frame: u32,
    pub accumulated_samples: u32,
}

impl GPUFrameBuffer {
    pub fn new(width: u32, height: u32, frame: u32, accumulated_samples: u32) -> (r:
        GPUFrameBuffer)
        ensures
            r == (GPUFrameBuffer { width, height, frame, accumulated_samples }),
    {
        GPUFrameBuffer { width, height, frame, accumulated_samples }
    }
}

} // verus!
