//! Recursive filters over 16-bit PCM frames.
//!
//! Every filter here is built from second-order sections that run in 2.14
//! fixed point: a coefficient `c` stands for the real number `c / 16384`.
//! Solving a cutoff frequency, a quality factor or a gain into such
//! coefficients takes trigonometry on real numbers and is left to the
//! caller; the filters take the solved coefficients and run them.
//!
//! A cascade of order zero has no section to run. It copies its input, and
//! does so for 32-bit floating-point frames as well.

pub mod biquad_filtering;
pub mod high_pass_filtering;
pub mod notching_filter;
pub mod peaking_eq_filter;

use vstd::prelude::*;
use crate::base::Error;
use crate::base::Format;
use crate::frames::frames_compat;
use crate::frames::Frames;
use crate::frames::FramesMut;

verus! {

/// What a filter answers to a request to turn `input` into `output`, before
/// it touches a sample: the buffers must agree with each other, and
/// (`accepted`) with the filter.
pub open spec fn process_outcome(accepted: bool, output: &FramesMut<'_>, input: &Frames<'_>) -> Result<
    (),
    Error,
> {
    match frames_compat(output, input) {
        Err(e) => Err(e),
        Ok(_) => if accepted {
            Ok(())
        } else {
            Err(Error::FormatMismatch)
        },
    }
}

/// A filter that turns a buffer of input frames into as many output frames.
pub trait Filter {
    /// The filter is set up consistently.
    spec fn wf(&self) -> bool;

    /// Whether the filter was set up for buffers of this shape.
    spec fn accepts(&self, format: Format, channels: u32) -> bool;

    /// Filters `input` into `output`.
    ///
    /// The call is refused, and nothing is written, when the two buffers
    /// differ in format, channel count or number of frames, or when the
    /// filter was set up for another format or channel count. Each filter
    /// adds what it writes when the call goes through.
    fn process_pcm_frames(&mut self, output: &mut FramesMut<'_>, input: &Frames<'_>) -> (r: Result<
        (),
        Error,
    >)
        requires
            old(self).wf(),
            old(output).wf(),
            input.wf(),
        ensures
            final(self).wf(),
            r == process_outcome(old(self).accepts(input.format, input.channels), old(output), input),
            r is Err ==> final(output)@ == old(output)@,
            final(output)@.len() == old(output)@.len(),
            final(output).format == old(output).format,
            final(output).channels == old(output).channels,
            final(final(output).data)@ == final(old(output).data)@,
    ;
}

} // verus!
