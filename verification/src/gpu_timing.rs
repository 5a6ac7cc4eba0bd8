//! Decoding of the GPU timestamp queries written around the compute and
//! display passes. The queries themselves live with the device; what is
//! verified here is the fixed slot layout of the resolved buffer and the
//! wrap-safe spans between timestamps.

use vstd::prelude::*;

verus! {

/// Number of timestamp slots written per frame: encoder start, compute
/// start and end, display start and end, encoder end.
pub const NUM_QUERIES: u64 = 6;

/// The decoded timestamps of one frame, in ticks.
#[derive(Clone, Copy, Debug)]
pub struct QueryResults {
    pub encoder_timestamps: [u64; 2],
    pub render_start_end_timestamps: [u64; 2],
    pub compute_start_end_timestamps: [u64; 2],
}

/// The distance from `start` to `end` on the wrapping 64-bit tick counter.
pub open spec fn span_spec(start: u64, end: u64) -> int {
    if end >= start {
        end - start
    } else {
        0x1_0000_0000_0000_0000 - start + end
    }
}

impl QueryResults {
    /// Decode a resolved timestamp buffer. The slot order is the order the
    /// queries are written in: encoder start, compute start/end, display
    /// start/end, encoder end.
    pub fn from_raw_results(timestamps: Vec<u64>) -> (r: Self)
        requires
            timestamps@.len() == NUM_QUERIES,
        ensures
            r.encoder_timestamps[0] == timestamps@[0],
            r.compute_start_end_timestamps[0] == timestamps@[1],
            r.compute_start_end_timestamps[1] == timestamps@[2],
            r.render_start_end_timestamps[0] == timestamps@[3],
            r.render_start_end_timestamps[1] == timestamps@[4],
            r.encoder_timestamps[1] == timestamps@[5],
    {
        QueryResults {
            encoder_timestamps: [timestamps[0], timestamps[5]],
            compute_start_end_timestamps: [timestamps[1], timestamps[2]],
            render_start_end_timestamps: [timestamps[3], timestamps[4]],
        }
    }

    /// Elapsed ticks of the whole encoder, the compute pass and the display
    /// pass, wrap-safe.
    pub fn elapsed_ticks(&self) -> (r: (u64, u64, u64))
        ensures
            r.0 as int == span_spec(self.encoder_timestamps[0], self.encoder_timestamps[1]),
            r.1 as int == span_spec(
                self.compute_start_end_timestamps[0],
                self.compute_start_end_timestamps[1],
            ),
            r.2 as int == span_spec(
                self.render_start_end_timestamps[0],
                self.render_start_end_timestamps[1],
            ),
    {
        (
            span(self.encoder_timestamps[0], self.encoder_timestamps[1]),
            span(self.compute_start_end_timestamps[0], self.compute_start_end_timestamps[1]),
            span(self.render_start_end_timestamps[0], self.render_start_end_timestamps[1]),
        )
    }
}

/// Wrap-safe distance between two points on the 64-bit tick counter.
fn span(start: u64, end: u64) -> (r: u64)
    ensures
        r as int == span_spec(start, end),
{
    if end >= start {
        end - start
    } else {
        u64::MAX - start + end + 1
    }
}

} // verus!
