//! A source of frames of one colour.

use vstd::prelude::*;

use crate::capture::{capture_outcome, CaptureView, FrameSource};
use crate::display::OutputId;
use crate::error::Error;
use crate::frame::{frame_parts_agree, Frame, FrameOrigin, FrameView, PixelFormat};
use crate::time::UtcTimestamp;

verus! {

/// Makes frames in which every byte is the same.
pub struct SolidColourFrameSource {
    pub width_px: u32,
    pub height_px: u32,
    pub fill: u8,
    pub captured_at: UtcTimestamp,
    pub log: Ghost<Seq<CaptureView>>,
}

impl SolidColourFrameSource {
    /// A source of frames of the given extent and byte.
    pub fn new(width_px: u32, height_px: u32, fill: u8, captured_at: UtcTimestamp) -> (r: Self)
        ensures
            r.width_px == width_px,
            r.height_px == height_px,
            r.fill == fill,
            r.captured_at == captured_at,
            r.captures() == Seq::<CaptureView>::empty(),
    {
        SolidColourFrameSource { width_px, height_px, fill, captured_at, log: Ghost(Seq::empty()) }
    }

    /// Bytes of one row; rows that would be too long are cut at the largest number.
    pub open spec fn stride(self) -> int {
        if self.width_px * 4 <= u32::MAX {
            self.width_px * 4
        } else {
            u32::MAX as int
        }
    }

    /// Bytes of the whole frame, cut at the largest count.
    pub open spec fn byte_count(self) -> int {
        if self.stride() * self.height_px <= usize::MAX {
            self.stride() * self.height_px
        } else {
            usize::MAX as int
        }
    }
}

impl FrameSource for SolidColourFrameSource {
    open spec fn captures(&self) -> Seq<CaptureView> {
        self.log@
    }

    fn capture(&mut self, output: &OutputId) -> (r: Result<Frame, Error>)
        ensures
            final(self).width_px == old(self).width_px,
            final(self).height_px == old(self).height_px,
            final(self).fill == old(self).fill,
            final(self).captured_at == old(self).captured_at,
            r is Ok <==> frame_parts_agree(
                PixelFormat::Xrgb8888,
                old(self).width_px as int,
                old(self).height_px as int,
                old(self).stride(),
                old(self).byte_count(),
            ),
            r matches Ok(f) ==> f@ == (FrameView {
                origin: FrameOrigin::TestDouble,
                format: PixelFormat::Xrgb8888,
                width_px: old(self).width_px,
                height_px: old(self).height_px,
                stride_bytes: old(self).stride() as u32,
                captured_at: old(self).captured_at,
                pixels: Seq::new(old(self).byte_count() as nat, |i: int| old(self).fill),
            }),
    {
        let format = PixelFormat::Xrgb8888;
        let stride: u32 = match self.width_px.checked_mul(format.bytes_per_pixel()) {
            Some(s) => s,
            None => u32::MAX,
        };
        let count: usize = match (stride as usize).checked_mul(self.height_px as usize) {
            Some(n) => n,
            None => usize::MAX,
        };
        let pixels: Vec<u8> = vec![self.fill; count];
        assert(pixels@ =~= Seq::new(old(self).byte_count() as nat, |i: int| old(self).fill));
        let r = Frame::new(
            FrameOrigin::TestDouble,
            format,
            self.width_px,
            self.height_px,
            stride,
            self.captured_at,
            pixels,
        );
        self.log = Ghost(
            self.log@.push(CaptureView { output: output@, outcome: capture_outcome(r) }),
        );
        r
    }
}

} // verus!
