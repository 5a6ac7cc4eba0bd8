//! Progressive-accumulation state: per-frame sampling parameters, the
//! frame/sample counters that decide when the image has converged, and the
//! change detection that resets them.

use vstd::prelude::*;
use crate::camera::Camera;

verus! {

/// Per-dispatch sampling configuration. `clear_image_buffer` is a one-shot
/// signal: it is raised for exactly the first frame after an invalidating
/// change and consumed on the frame that follows.
#[derive(Clone, Copy, PartialEq, Eq, Structural, Debug)]
pub struct SamplingParameters {
    /// Total per-pixel sample budget the image converges towards.
    pub samples_per_pixel: u32,
    /// Ray bounce limit per sample.
    pub num_bounces: u32,
    /// Samples contributed by one dispatch.
    pub samples_per_frame: u32,
    /// 1 while the accumulation image must be overwritten instead of blended.
    pub clear_image_buffer: u32,
}

impl Default for SamplingParameters {
    /// The session's starting sampling configuration.
    fn default() -> (r: Self)
        ensures
            r.samples_per_pixel == 100,
            r.num_bounces == 50,
            r.samples_per_frame == 5,
            r.clear_image_buffer == 0,
    {
        SamplingParameters {
            samples_per_pixel: 100u32,
            num_bounces: 50u32,
            samples_per_frame: 5u32,
            clear_image_buffer: 0u32,
        }
    }
}

impl SamplingParameters {
    /// Raise the clear flag: the next frame overwrites the accumulation image.
    pub fn reset(&mut self)
        ensures
            *final(self) == (SamplingParameters { clear_image_buffer: 1u32, ..*old(self) }),
    {
        self.clear_image_buffer = 1;
    }

    /// Consume the clear flag: subsequent frames blend into the image.
    pub fn accumulate(&mut self)
        ensures
            *final(self) == (SamplingParameters { clear_image_buffer: 0u32, ..*old(self) }),
    {
        self.clear_image_buffer = 0;
    }
}

/// Frame index and accumulated sample count of the progressive render,
/// together with the convergence target. Reset to zero by any invalidating
/// event; advanced once per redraw.
#[derive(Clone, Copy, PartialEq, Eq, Structural, Debug)]
pub struct RenderProgress {
    /// Frames dispatched since the last reset.
    pub frame: u32,
    /// Convergence target: total samples per pixel.
    pub samples_per_pixel: u32,
    /// Samples accumulated per pixel since the last reset.
    pub accumulated_samples: u32,
}

impl Default for RenderProgress {
    fn default() -> (r: Self)
        ensures
            r.frame == 0,
            r.samples_per_pixel == 100,
            r.accumulated_samples == 0,
    {
        RenderProgress { frame: 0u32, samples_per_pixel: 100u32, accumulated_samples: 0u32 }
    }
}

impl RenderProgress {
    /// Fresh progress towards a target of `spp` samples per pixel.
    pub fn new(spp: u32) -> (r: Self)
        ensures
            r.frame == 0,
            r.samples_per_pixel == spp,
            r.accumulated_samples == 0,
    {
        RenderProgress { frame: 0u32, samples_per_pixel: spp, accumulated_samples: 0u32 }
    }

    /// The RESET transition: drop all accumulated work.
    pub fn reset(&mut self)
        ensures
            final(self).frame == 0,
            final(self).accumulated_samples == 0,
            final(self).samples_per_pixel == old(self).samples_per_pixel,
    {
        self.frame = 0;
        self.accumulated_samples = 0;
    }

    pub fn frame(&self) -> (r: u32)
        ensures
            r == self.frame,
    {
        self.frame
    }

    pub fn accumulated_samples(&self) -> (r: u32)
        ensures
            r == self.accumulated_samples,
    {
        self.accumulated_samples
    }

    /// Whether the accumulated samples have reached the convergence target.
    pub fn done(&self) -> (r: bool)
        ensures
            r == (self.accumulated_samples >= self.samples_per_pixel),
    {
        self.accumulated_samples >= self.samples_per_pixel
    }

    /// The ADVANCE transition: one more frame of `spf` samples per pixel.
    /// Returns whether the render has now converged.
    pub fn progress(&mut self, spf: u32) -> (done: bool)
        requires
            old(self).frame < u32::MAX,
            old(self).accumulated_samples + spf <= u32::MAX,
        ensures
            final(self).frame == old(self).frame + 1,
            final(self).accumulated_samples == old(self).accumulated_samples + spf,
            final(self).samples_per_pixel == old(self).samples_per_pixel,
            done == (final(self).accumulated_samples >= final(self).samples_per_pixel),
    {
        self.frame = self.frame + 1;
        self.accumulated_samples = self.accumulated_samples + spf;
        self.accumulated_samples >= self.samples_per_pixel
    }
}

/// The unit of change detection: camera pose, sampling parameters and the
/// logical viewport size. Any difference between two frames' values (apart
/// from the one-shot clear flag) invalidates the accumulated image.
#[derive(Clone, Copy, PartialEq, Eq, Structural, Debug)]
pub struct RenderParameters {
    pub camera: Camera,
    pub sampling_parameters: SamplingParameters,
    pub viewport_width: u32,
    pub viewport_height: u32,
}

/// Whether moving from parameters `b` (the previous frame) to `a` (this
/// frame) invalidates the accumulated image: any change to the camera pose,
/// the viewport, or a sampling parameter. The clear flag is a signal the
/// renderer itself toggles, not a parameter, so it does not count.
pub open spec fn invalidating_change(a: RenderParameters, b: RenderParameters) -> bool {
    ||| a.camera != b.camera
    ||| a.viewport_width != b.viewport_width
    ||| a.viewport_height != b.viewport_height
    ||| a.sampling_parameters.samples_per_pixel != b.sampling_parameters.samples_per_pixel
    ||| a.sampling_parameters.num_bounces != b.sampling_parameters.num_bounces
    ||| a.sampling_parameters.samples_per_frame != b.sampling_parameters.samples_per_frame
}

impl RenderParameters {
    pub fn new(camera: Camera, sampling_parameters: SamplingParameters, viewport_size: (
        u32,
        u32,
    )) -> (r: RenderParameters)
        ensures
            r == (RenderParameters {
                camera,
                sampling_parameters,
                viewport_width: viewport_size.0,
                viewport_height: viewport_size.1,
            }),
    {
        RenderParameters {
            camera,
            sampling_parameters,
            viewport_width: viewport_size.0,
            viewport_height: viewport_size.1,
        }
    }

    pub fn set_viewport(&mut self, size: (u32, u32))
        ensures
            *final(self) == (RenderParameters {
                viewport_width: size.0,
                viewport_height: size.1,
                ..*old(self)
            }),
    {
        self.viewport_width = size.0;
        self.viewport_height = size.1;
    }

    pub fn get_viewport(&self) -> (r: (u32, u32))
        ensures
            r == (self.viewport_width, self.viewport_height),
    {
        (self.viewport_width, self.viewport_height)
    }

    pub fn camera(&self) -> (r: &Camera)
        ensures
            r == self.camera,
    {
        &self.camera
    }

    pub fn update_camera(&mut self, camera: Camera)
        ensures
            *final(self) == (RenderParameters { camera, ..*old(self) }),
    {
        self.camera = camera;
    }

    /// Whether moving from `last` to `self` invalidates the accumulation.
    pub fn invalidates(&self, last: &RenderParameters) -> (r: bool)
        ensures
            r == invalidating_change(*self, *last),
    {
        self.camera != last.camera || self.viewport_width != last.viewport_width
            || self.viewport_height != last.viewport_height
            || self.sampling_parameters.samples_per_pixel
            != last.sampling_parameters.samples_per_pixel
            || self.sampling_parameters.num_bounces != last.sampling_parameters.num_bounces
            || self.sampling_parameters.samples_per_frame
            != last.sampling_parameters.samples_per_frame
    }
}

/// The frame-boundary step as a value: on an invalidating change, RESET the
/// counters and raise the clear flag; otherwise consume the clear flag.
pub open spec fn sync_spec(rp: RenderParameters, last: RenderParameters, p: RenderProgress) -> (
    RenderParameters,
    RenderProgress,
) {
    if invalidating_change(rp, last) {
        (
            RenderParameters {
                sampling_parameters: SamplingParameters {
                    clear_image_buffer: 1u32,
                    ..rp.sampling_parameters
                },
                ..rp
            },
            RenderProgress { frame: 0u32, accumulated_samples: 0u32, ..p },
        )
    } else {
        (
            RenderParameters {
                sampling_parameters: SamplingParameters {
                    clear_image_buffer: 0u32,
                    ..rp.sampling_parameters
                },
                ..rp
            },
            p,
        )
    }
}

/// Consume all pending parameter changes at a frame boundary: if anything
/// invalidating changed since `last`, RESET the progressive counters and
/// raise the clear flag for the coming frame; otherwise lower it, so the
/// flag is up for exactly the one frame that follows a change.
pub fn sync_frame_state(
    rp: &mut RenderParameters,
    last: &RenderParameters,
    progress: &mut RenderProgress,
)
    ensures
        (*final(rp), *final(progress)) == sync_spec(*old(rp), *last, *old(progress)),
{
    if rp.invalidates(last) {
        progress.reset();
        rp.sampling_parameters.reset();
    } else {
        rp.sampling_parameters.accumulate();
    }
}

/// Law: any invalidating change between frame N and N + 1 forces
/// `frame == 0` and `accumulated_samples == 0` at N + 1 with the clear flag
/// raised, and the flag stays up for exactly that one frame: the next
/// boundary step, with the parameters now unchanged, lowers it and keeps the
/// counters.
pub proof fn lemma_reset_clear_one_frame(
    rp: RenderParameters,
    last: RenderParameters,
    p: RenderProgress,
)
    requires
        invalidating_change(rp, last),
    ensures
        ({
            let (rp1, p1) = sync_spec(rp, last, p);
            &&& p1.frame == 0
            &&& p1.accumulated_samples == 0
            &&& p1.samples_per_pixel == p.samples_per_pixel
            &&& rp1.sampling_parameters.clear_image_buffer == 1
            &&& !invalidating_change(rp1, rp1)
            &&& sync_spec(rp1, rp1, p1).0.sampling_parameters.clear_image_buffer == 0
            &&& sync_spec(rp1, rp1, p1).1 == p1
        }),
{
}

/// Counters after `k` ADVANCE transitions of `s` samples per frame, starting
/// from the RESET state: the pair (frame index, accumulated samples).
pub open spec fn counters_after(k: nat, s: int) -> (int, int)
    decreases k,
{
    if k == 0 {
        (0int, 0int)
    } else {
        let prev = counters_after((k - 1) as nat, s);
        (prev.0 + 1, prev.1 + s)
    }
}

/// Law: starting from RESET, `k` ADVANCE calls with `samples_per_frame == s`
/// leave `frame == k` and `accumulated_samples == k * s`. One `counters_after`
/// step is exactly the transition that `RenderProgress::progress` ensures, and
/// `(0, 0)` is the state `RenderProgress::reset` ensures.
pub proof fn lemma_accumulation_schedule(k: nat, s: int)
    ensures
        counters_after(k, s).0 == k,
        counters_after(k, s).1 == k * s,
    decreases k,
{
    if k > 0 {
        let km = (k - 1) as nat;
        lemma_accumulation_schedule(km, s);
        assert(counters_after(k, s).0 == counters_after(km, s).0 + 1);
        assert(counters_after(k, s).1 == counters_after(km, s).1 + s);
        assert(k * s == km * s + s) by (nonlinear_arith)
            requires
                k >= 1,
                km == k - 1,
        ;
    } else {
        assert(k * s == 0) by (nonlinear_arith)
            requires
                k == 0,
        ;
    }
}

/// Law: with a positive per-frame budget, the render is converged after `k`
/// frames exactly when `k * s` has reached the target, so `done` first turns
/// true at the smallest such `k`, and stays true afterwards.
pub proof fn lemma_done_threshold(k: nat, s: int, target: int)
    requires
        s >= 1,
    ensures
        (counters_after(k, s).1 >= target) <==> (k * s >= target),
        forall|j: nat|
            j >= k && counters_after(k, s).1 >= target ==> #[trigger] counters_after(
                j,
                s,
            ).1 >= target,
{
    lemma_accumulation_schedule(k, s);
    assert forall|j: nat| j >= k && counters_after(k, s).1 >= target implies #[trigger] counters_after(
        j,
        s,
    ).1 >= target by {
        lemma_accumulation_schedule(j, s);
        assert(j * s >= k * s) by (nonlinear_arith)
            requires
                j >= k,
                s >= 1,
        ;
    }
}

} // verus!
