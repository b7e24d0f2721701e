//! Frames from the host's outputs.

use vstd::prelude::*;

use crate::display::OutputId;
use crate::error::{Error, ErrorView};
use crate::frame::{Frame, FrameView};

pub mod screencopy;
pub mod testing;

verus! {

/// One attempt to capture: the output, and the frame or the error.
pub struct CaptureView {
    pub output: Seq<char>,
    pub outcome: Result<FrameView, ErrorView>,
}

/// What came of an attempt to capture.
pub open spec fn capture_outcome(r: Result<Frame, Error>) -> Result<FrameView, ErrorView> {
    match r {
        Ok(frame) => Ok(frame@),
        Err(e) => Err(e@),
    }
}

/// Captures one frame of an output.
pub trait FrameSource {
    /// The attempts so far, in order.
    open spec fn captures(&self) -> Seq<CaptureView> {
        arbitrary()
    }

    fn capture(&mut self, output: &OutputId) -> (r: Result<Frame, Error>)
        ensures
            final(self).captures() == old(self).captures().push(
                CaptureView { output: output@, outcome: capture_outcome(r) },
            ),
    ;
}

} // verus!
