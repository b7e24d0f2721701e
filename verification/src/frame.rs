//! A frame of pixels and where it came from.

use vstd::prelude::*;

use crate::error::{plain_error, DetailView, Error, ErrorCode};
use crate::id::TraceId;
use crate::time::UtcTimestamp;

verus! {

/// Where a frame came from.
#[derive(Debug, Clone, Copy, PartialEq, Eq, Hash, Structural)]
pub enum FrameOrigin {
    /// The host's compositor drew it.
    RealCapture,
    /// A test made it up.
    TestDouble,
}

/// How the pixels of a frame are laid out.
#[derive(Debug, Clone, Copy, PartialEq, Eq, Hash, Structural)]
pub enum PixelFormat {
    Xrgb8888,
    Argb8888,
}

impl PixelFormat {
    /// Bytes of one pixel.
    pub open spec fn pixel_bytes(self) -> u32 {
        4
    }

    /// Bytes of one pixel.
    pub fn bytes_per_pixel(self) -> (r: u32)
        ensures
            r == self.pixel_bytes(),
    {
        4
    }
}

/// Whether the parts of a frame agree: a row holds its pixels, and the bytes are
/// as many as the rows need.
pub open spec fn frame_parts_agree(
    format: PixelFormat,
    width_px: int,
    height_px: int,
    stride_bytes: int,
    byte_count: int,
) -> bool {
    &&& width_px * format.pixel_bytes() <= stride_bytes
    &&& byte_count == stride_bytes * height_px
}

/// A frame of pixels. A row holds its pixels, and there are as many bytes as the
/// rows need.
#[derive(Debug)]
pub struct Frame {
    origin: FrameOrigin,
    format: PixelFormat,
    width_px: u32,
    height_px: u32,
    stride_bytes: u32,
    captured_at: UtcTimestamp,
    pixels: Vec<u8>,
}

/// What a [`Frame`] holds.
pub struct FrameView {
    pub origin: FrameOrigin,
    pub format: PixelFormat,
    pub width_px: u32,
    pub height_px: u32,
    pub stride_bytes: u32,
    pub captured_at: UtcTimestamp,
    pub pixels: Seq<u8>,
}

impl FrameView {
    /// A row holds its pixels, and there are as many bytes as the rows need.
    pub open spec fn consistent(self) -> bool {
        frame_parts_agree(
            self.format,
            self.width_px as int,
            self.height_px as int,
            self.stride_bytes as int,
            self.pixels.len() as int,
        )
    }
}

impl View for Frame {
    type V = FrameView;

    closed spec fn view(&self) -> FrameView {
        FrameView {
            origin: self.origin,
            format: self.format,
            width_px: self.width_px,
            height_px: self.height_px,
            stride_bytes: self.stride_bytes,
            captured_at: self.captured_at,
            pixels: self.pixels@,
        }
    }
}

impl Frame {
    #[verifier::type_invariant]
    spec fn parts_agree(self) -> bool {
        frame_parts_agree(
            self.format,
            self.width_px as int,
            self.height_px as int,
            self.stride_bytes as int,
            self.pixels@.len() as int,
        )
    }

    /// A frame; parts that do not agree are refused.
    pub fn new(
        origin: FrameOrigin,
        format: PixelFormat,
        width_px: u32,
        height_px: u32,
        stride_bytes: u32,
        captured_at: UtcTimestamp,
        pixels: Vec<u8>,
    ) -> (r: Result<Self, Error>)
        ensures
            r is Ok <==> frame_parts_agree(
                format,
                width_px as int,
                height_px as int,
                stride_bytes as int,
                pixels@.len() as int,
            ),
            r matches Ok(f) ==> f@ == (FrameView {
                origin,
                format,
                width_px,
                height_px,
                stride_bytes,
                captured_at,
                pixels: pixels@,
            }),
            r matches Err(e) ==> e@ == plain_error(
                ErrorCode::InvalidArgument,
                "the parts of a frame do not agree"@,
            ).with("width_px"@, DetailView::Int(width_px as int)).with(
                "height_px"@,
                DetailView::Int(height_px as int),
            ).with("stride_bytes"@, DetailView::Int(stride_bytes as int)),
    {
        let row: u64 = width_px as u64 * format.bytes_per_pixel() as u64;
        assert(stride_bytes * height_px <= u32::MAX * u32::MAX) by (nonlinear_arith)
            requires
                0 <= stride_bytes <= u32::MAX,
                0 <= height_px <= u32::MAX,
        ;
        let needed: u64 = stride_bytes as u64 * height_px as u64;
        if row > stride_bytes as u64 || pixels.len() as u64 != needed {
            return Err(
                Error::new(
                    ErrorCode::InvalidArgument,
                    "the parts of a frame do not agree",
                    TraceId::unattributed(),
                ).with_detail("width_px", width_px as i64).with_detail(
                    "height_px",
                    height_px as i64,
                ).with_detail("stride_bytes", stride_bytes as i64),
            );
        }
        Ok(Frame { origin, format, width_px, height_px, stride_bytes, captured_at, pixels })
    }

    /// Where it came from.
    pub fn origin(&self) -> (r: FrameOrigin)
        ensures
            r == self@.origin,
    {
        self.origin
    }

    /// Whether the host's compositor drew it.
    pub fn is_real_capture(&self) -> (r: bool)
        ensures
            r == (self@.origin == FrameOrigin::RealCapture),
    {
        self.origin == FrameOrigin::RealCapture
    }

    /// The layout of its pixels.
    pub fn format(&self) -> (r: PixelFormat)
        ensures
            r == self@.format,
    {
        self.format
    }

    /// Its width.
    pub fn width_px(&self) -> (r: u32)
        ensures
            r == self@.width_px,
    {
        self.width_px
    }

    /// Its height.
    pub fn height_px(&self) -> (r: u32)
        ensures
            r == self@.height_px,
    {
        self.height_px
    }

    /// Bytes of one row.
    pub fn stride_bytes(&self) -> (r: u32)
        ensures
            r == self@.stride_bytes,
    {
        self.stride_bytes
    }

    /// When it was captured.
    pub fn captured_at(&self) -> (r: UtcTimestamp)
        ensures
            r == self@.captured_at,
    {
        self.captured_at
    }

    /// Its bytes, row by row.
    pub fn pixels(&self) -> (r: &[u8])
        ensures
            r@ == self@.pixels,
            self@.consistent(),
    {
        proof {
            use_type_invariant(self);
        }
        self.pixels.as_slice()
    }
}

} // verus!
