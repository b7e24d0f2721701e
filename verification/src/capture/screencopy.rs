//! Capturing an output through the `zwlr_screencopy` protocol: the state of a
//! frame under way, the table of outputs, and the decisions between the requests.

use vstd::prelude::*;

use crate::capture::{capture_outcome, CaptureView, FrameSource};
use crate::display::OutputId;
use crate::error::{plain_error, DetailView, Error, ErrorCode, ErrorView};
use crate::frame::{frame_parts_agree, Frame, FrameOrigin, FrameView, PixelFormat};
use crate::id::TraceId;
use crate::retry::{first_ceilings, BackoffWait, RetryPolicy};
use crate::testing::texts;
use crate::text::same_text;
use crate::time::UtcTimestamp;

pub mod laws;

verus! {

/// The version of the screencopy manager that is bound.
pub const SCREENCOPY_VERSION: u32 = 3;

/// The newest version of an output that is bound.
pub const OUTPUT_VERSION: u32 = 4;

/// How long a capture may take.
pub const DEFAULT_CAPTURE_TIMEOUT_MILLIS: u64 = 5000;

/// How often the connection is asked to answer before the outputs are read: once
/// for the outputs, once for their names.
pub const SYNC_ROUNDTRIPS: u32 = 2;

/// The number of the `wl_shm` format `argb8888`.
pub const WL_SHM_ARGB8888: u32 = 0;

/// The number of the `wl_shm` format `xrgb8888`.
pub const WL_SHM_XRGB8888: u32 = 1;

/// The steps of a capture that talk to the system, each of which can fail.
#[derive(Debug, Clone, Copy, PartialEq, Eq, Structural)]
pub enum CaptureStep {
    Connect,
    Registry,
    BindShm,
    BindManager,
    Roundtrip,
    Dispatch,
    Flush,
    Poll,
    Read,
    Deadline,
    CreateMemory,
    SizeMemory,
    PoisonMemory,
    FlushMemory,
    RewindMemory,
    ReadMemory,
}

impl CaptureStep {
    /// The error of a step that failed.
    pub open spec fn error(self) -> ErrorView {
        match self {
            CaptureStep::Connect => plain_error(
                ErrorCode::CapabilityUnavailable,
                "could not connect to a wayland compositor"@,
            ),
            CaptureStep::Registry => plain_error(
                ErrorCode::HostRefused,
                "the compositor did not answer the registry roundtrip"@,
            ),
            CaptureStep::BindShm => plain_error(
                ErrorCode::CapabilityUnavailable,
                "the compositor does not offer wl_shm"@,
            ),
            CaptureStep::BindManager => plain_error(
                ErrorCode::CapabilityUnavailable,
                "the compositor does not offer zwlr_screencopy_manager_v1 version 3"@,
            ),
            CaptureStep::Roundtrip => plain_error(
                ErrorCode::HostRefused,
                "the compositor did not answer a roundtrip"@,
            ),
            CaptureStep::Dispatch => plain_error(
                ErrorCode::HostRefused,
                "dispatching compositor events failed"@,
            ),
            CaptureStep::Flush => plain_error(
                ErrorCode::HostRefused,
                "flushing requests to the compositor failed"@,
            ),
            CaptureStep::Poll => plain_error(
                ErrorCode::Internal,
                "polling the wayland socket failed"@,
            ),
            CaptureStep::Read => plain_error(
                ErrorCode::HostRefused,
                "reading from the wayland socket failed"@,
            ),
            CaptureStep::Deadline => plain_error(
                ErrorCode::HostRefused,
                "the compositor did not answer in time"@,
            ),
            CaptureStep::CreateMemory => plain_error(
                ErrorCode::Internal,
                "could not create the shared memory for the frame"@,
            ),
            CaptureStep::SizeMemory => plain_error(
                ErrorCode::Internal,
                "could not size the shared memory for the frame"@,
            ),
            CaptureStep::PoisonMemory => plain_error(
                ErrorCode::Internal,
                "could not poison the shared memory before the copy"@,
            ),
            CaptureStep::FlushMemory => plain_error(
                ErrorCode::Internal,
                "could not flush the poisoned shared memory"@,
            ),
            CaptureStep::RewindMemory => plain_error(
                ErrorCode::Internal,
                "could not rewind the frame memory"@,
            ),
            CaptureStep::ReadMemory => plain_error(
                ErrorCode::Internal,
                "could not read the captured frame back"@,
            ),
        }
    }

    /// The error of a step that failed.
    pub fn failed(self) -> (r: Error)
        ensures
            r@ == self.error(),
    {
        match self {
            CaptureStep::Connect => Error::new(
                ErrorCode::CapabilityUnavailable,
                "could not connect to a wayland compositor",
                TraceId::unattributed(),
            ),
            CaptureStep::Registry => host_refused(
                "the compositor did not answer the registry roundtrip",
            ),
            CaptureStep::BindShm => Error::new(
                ErrorCode::CapabilityUnavailable,
                "the compositor does not offer wl_shm",
                TraceId::unattributed(),
            ),
            CaptureStep::BindManager => Error::new(
                ErrorCode::CapabilityUnavailable,
                "the compositor does not offer zwlr_screencopy_manager_v1 version 3",
                TraceId::unattributed(),
            ),
            CaptureStep::Roundtrip => host_refused("the compositor did not answer a roundtrip"),
            CaptureStep::Dispatch => host_refused("dispatching compositor events failed"),
            CaptureStep::Flush => host_refused("flushing requests to the compositor failed"),
            CaptureStep::Poll => internal("polling the wayland socket failed"),
            CaptureStep::Read => host_refused("reading from the wayland socket failed"),
            CaptureStep::Deadline => host_refused("the compositor did not answer in time"),
            CaptureStep::CreateMemory => internal(
                "could not create the shared memory for the frame",
            ),
            CaptureStep::SizeMemory => internal("could not size the shared memory for the frame"),
            CaptureStep::PoisonMemory => internal(
                "could not poison the shared memory before the copy",
            ),
            CaptureStep::FlushMemory => internal("could not flush the poisoned shared memory"),
            CaptureStep::RewindMemory => internal("could not rewind the frame memory"),
            CaptureStep::ReadMemory => internal("could not read the captured frame back"),
        }
    }

    /// The error of a step that somebody else's error made fail: it keeps that as its cause.
    pub fn failed_with(self, cause: &str) -> (r: Error)
        ensures
            r@ == self.error().because(cause@),
    {
        self.failed().caused_by(cause)
    }
}

fn host_refused(message: &str) -> (r: Error)
    ensures
        r@ == plain_error(ErrorCode::HostRefused, message@),
{
    Error::new(ErrorCode::HostRefused, message, TraceId::unattributed())
}

fn internal(message: &str) -> (r: Error)
    ensures
        r@ == plain_error(ErrorCode::Internal, message@),
{
    Error::new(ErrorCode::Internal, message, TraceId::unattributed())
}

/// The pixel format of a `wl_shm` format, where frames know it.
pub open spec fn known_format(raw: u32) -> Option<PixelFormat> {
    if raw == WL_SHM_XRGB8888 {
        Some(PixelFormat::Xrgb8888)
    } else if raw == WL_SHM_ARGB8888 {
        Some(PixelFormat::Argb8888)
    } else {
        None
    }
}

/// The pixel format of a `wl_shm` format, where frames know it.
pub fn supported_format(raw: u32) -> (r: Option<PixelFormat>)
    ensures
        r == known_format(raw),
{
    if raw == WL_SHM_XRGB8888 {
        Some(PixelFormat::Xrgb8888)
    } else if raw == WL_SHM_ARGB8888 {
        Some(PixelFormat::Argb8888)
    } else {
        None
    }
}

/// A buffer that the compositor would copy into.
#[derive(Debug, Clone, Copy, PartialEq, Eq, Structural)]
pub struct ShmBufferSpec {
    pub format: u32,
    pub width: u32,
    pub height: u32,
    pub stride: u32,
}

/// What the compositor says of a frame.
#[derive(Debug, Clone, Copy, PartialEq, Eq, Structural)]
pub enum FrameEvent {
    /// A buffer that would do.
    Buffer { format: u32, width: u32, height: u32, stride: u32 },
    /// All buffers have been named.
    BufferDone,
    /// Whether the rows stand upside down.
    Flags { y_invert: bool },
    /// The copy is there.
    Ready,
    /// There will be no copy.
    Failed,
}

/// What is known of a frame under way.
#[derive(Debug, Clone, Copy, PartialEq, Eq, Structural)]
pub struct PendingFrame {
    pub shm: Option<ShmBufferSpec>,
    pub unsupported_format: Option<u32>,
    pub buffer_done: bool,
    pub ready: bool,
    pub failed: bool,
    pub y_invert: bool,
}

impl Default for PendingFrame {
    fn default() -> (r: Self)
        ensures
            r == PendingFrame::nothing(),
    {
        PendingFrame {
            shm: None,
            unsupported_format: None,
            buffer_done: false,
            ready: false,
            failed: false,
            y_invert: false,
        }
    }
}

impl PendingFrame {
    /// Nothing is known yet.
    pub open spec fn nothing() -> Self {
        PendingFrame {
            shm: None,
            unsupported_format: None,
            buffer_done: false,
            ready: false,
            failed: false,
            y_invert: false,
        }
    }

    /// What is known after an event. The last buffer in a known format counts, and
    /// the last unknown format is remembered.
    pub open spec fn after(self, event: FrameEvent) -> Self {
        match event {
            FrameEvent::Buffer { format, width, height, stride } => if known_format(
                format,
            ) is Some {
                PendingFrame { shm: Some(ShmBufferSpec { format, width, height, stride }), ..self }
            } else {
                PendingFrame { unsupported_format: Some(format), ..self }
            },
            FrameEvent::BufferDone => PendingFrame { buffer_done: true, ..self },
            FrameEvent::Flags { y_invert } => PendingFrame { y_invert, ..self },
            FrameEvent::Ready => PendingFrame { ready: true, ..self },
            FrameEvent::Failed => PendingFrame { failed: true, ..self },
        }
    }

    /// Takes note of an event.
    pub fn apply(&mut self, event: FrameEvent)
        ensures
            *final(self) == old(self).after(event),
    {
        match event {
            FrameEvent::Buffer { format, width, height, stride } => {
                if supported_format(format).is_some() {
                    self.shm = Some(ShmBufferSpec { format, width, height, stride });
                } else {
                    self.unsupported_format = Some(format);
                }
            },
            FrameEvent::BufferDone => {
                self.buffer_done = true;
            },
            FrameEvent::Flags { y_invert } => {
                self.y_invert = y_invert;
            },
            FrameEvent::Ready => {
                self.ready = true;
            },
            FrameEvent::Failed => {
                self.failed = true;
            },
        }
    }

    /// Whether the offer of buffers is over.
    pub fn offer_is_over(&self) -> (r: bool)
        ensures
            r == (self.buffer_done || self.failed || self.unsupported_format is Some),
    {
        self.buffer_done || self.failed || self.unsupported_format.is_some()
    }

    /// Whether the copy is over.
    pub fn copy_is_over(&self) -> (r: bool)
        ensures
            r == (self.ready || self.failed),
    {
        self.ready || self.failed
    }

    /// The buffer to copy into, as the offer stands: its layout and its size in
    /// bytes, or why there is none.
    pub open spec fn plan(self) -> Result<CopyPlan, ErrorView> {
        if self.failed {
            Err(
                plain_error(
                    ErrorCode::HostRefused,
                    "the compositor refused to capture this output"@,
                ),
            )
        } else {
            match self.shm {
                None => {
                    let e = plain_error(
                        ErrorCode::HostRefused,
                        "the compositor offered no wl_shm buffer for this frame"@,
                    );
                    match self.unsupported_format {
                        Some(raw) => Err(e.with("offered_format"@, DetailView::Int(raw as int))),
                        None => Err(e),
                    }
                },
                Some(spec) => if spec.width == 0 || spec.height == 0 {
                    Err(
                        plain_error(
                            ErrorCode::HostRefused,
                            "the compositor offered a zero-sized buffer"@,
                        ),
                    )
                } else {
                    match known_format(spec.format) {
                        None => Err(
                            plain_error(
                                ErrorCode::HostRefused,
                                "the compositor offered an unsupported pixel format"@,
                            ),
                        ),
                        Some(format) => if spec.stride * spec.height > usize::MAX {
                            Err(
                                plain_error(
                                    ErrorCode::HostRefused,
                                    "the offered buffer size overflows"@,
                                ),
                            )
                        } else {
                            Ok(
                                CopyPlan {
                                    spec,
                                    format,
                                    size: (spec.stride * spec.height) as usize,
                                },
                            )
                        },
                    }
                },
            }
        }
    }

    /// The buffer to copy into, or why there is none.
    pub fn choose_buffer(&self) -> (r: Result<CopyPlan, Error>)
        ensures
            match self.plan() {
                Ok(plan) => r == Ok::<CopyPlan, Error>(plan),
                Err(e) => r is Err && r->Err_0@ == e,
            },
    {
        if self.failed {
            return Err(host_refused("the compositor refused to capture this output"));
        }
        let spec = match self.shm {
            Some(spec) => spec,
            None => {
                let e = host_refused("the compositor offered no wl_shm buffer for this frame");
                return match self.unsupported_format {
                    Some(raw) => Err(e.with_detail("offered_format", raw as i64)),
                    None => Err(e),
                };
            },
        };
        if spec.width == 0 || spec.height == 0 {
            return Err(host_refused("the compositor offered a zero-sized buffer"));
        }
        let format = match supported_format(spec.format) {
            Some(format) => format,
            None => return Err(
                host_refused("the compositor offered an unsupported pixel format"),
            ),
        };
        match (spec.stride as usize).checked_mul(spec.height as usize) {
            Some(size) => Ok(CopyPlan { spec, format, size }),
            None => Err(host_refused("the offered buffer size overflows")),
        }
    }

    /// The error of a copy that is not there. That it failed goes before that it is not ready.
    pub open spec fn copy_error(self) -> ErrorView {
        plain_error(
            ErrorCode::HostRefused,
            if self.failed {
                "the compositor reported the copy as failed"@
            } else {
                "the compositor never reported the frame as ready"@
            },
        )
    }

    /// Whether the copy is there, or why it is not.
    pub fn copy_outcome(&self) -> (r: Result<(), Error>)
        ensures
            r is Ok <==> !self.failed && self.ready,
            r matches Err(e) ==> e@ == self.copy_error(),
    {
        if self.failed {
            return Err(host_refused("the compositor reported the copy as failed"));
        }
        if !self.ready {
            return Err(host_refused("the compositor never reported the frame as ready"));
        }
        Ok(())
    }
}

/// A buffer format that was accepted is one that frames know, so an offer in a
/// known format is never turned down as unsupported.
pub proof fn law_noted_buffer_is_known(before: PendingFrame, event: FrameEvent)
    requires
        before.shm matches Some(spec) ==> known_format(spec.format) is Some,
    ensures
        before.after(event).shm matches Some(spec) ==> known_format(spec.format) is Some,
{
}

/// The buffer that a frame is copied into.
#[derive(Debug, Clone, Copy, PartialEq, Eq, Structural)]
pub struct CopyPlan {
    pub spec: ShmBufferSpec,
    pub format: PixelFormat,
    pub size: usize,
}

/// Where a byte of row `row` stands.
pub open spec fn cell(row: int, byte: int, stride: int) -> int {
    row * stride + byte
}

/// The same bytes with the rows in the opposite order. Bytes after the last row
/// stay.
pub open spec fn flipped(pixels: Seq<u8>, stride: int, height: int) -> Seq<u8> {
    Seq::new(
        pixels.len(),
        |i: int|
            if i < stride * height {
                pixels[cell(height - 1 - i / stride, i % stride, stride)]
            } else {
                pixels[i]
            },
    )
}

proof fn lemma_cell(row: int, byte: int, stride: int, height: int)
    requires
        0 <= row < height,
        0 <= byte < stride,
    ensures
        0 <= cell(row, byte, stride) < stride * height,
        cell(row, byte, stride) / stride == row,
        cell(row, byte, stride) % stride == byte,
{
    assert(row * stride + byte < stride * height && 0 <= row * stride) by (nonlinear_arith)
        requires
            0 <= row < height,
            0 <= byte < stride,
    ;
    vstd::arithmetic::div_mod::lemma_fundamental_div_mod_converse(
        row * stride + byte,
        stride,
        row,
        byte,
    );
}

proof fn lemma_cell_of(i: int, stride: int, height: int)
    requires
        0 <= i < stride * height,
        stride > 0,
    ensures
        0 <= i / stride < height,
        0 <= i % stride < stride,
        cell(i / stride, i % stride, stride) == i,
{
    vstd::arithmetic::div_mod::lemma_fundamental_div_mod(i, stride);
    assert(0 <= i / stride < height && i / stride * stride == stride * (i / stride))
        by (nonlinear_arith)
        requires
            0 <= i < stride * height,
            stride > 0,
            i == stride * (i / stride) + i % stride,
            0 <= i % stride < stride,
    ;
}

proof fn lemma_rows_positive(i: int, stride: int, height: int)
    requires
        0 <= i < stride * height,
        0 <= stride,
        0 <= height,
    ensures
        stride > 0,
        height > 0,
{
    assert(stride > 0 && height > 0) by (nonlinear_arith)
        requires
            0 <= i < stride * height,
            0 <= stride,
            0 <= height,
    ;
}

/// Flipping twice gives the bytes back.
pub proof fn law_flipping_undoes_itself(pixels: Seq<u8>, stride: int, height: int)
    requires
        0 <= stride,
        0 <= height,
        stride * height <= pixels.len(),
    ensures
        flipped(flipped(pixels, stride, height), stride, height) == pixels,
{
    let once = flipped(pixels, stride, height);
    let twice = flipped(once, stride, height);
    assert forall|i: int| 0 <= i < pixels.len() implies twice[i] == pixels[i] by {
        if i < stride * height {
            lemma_rows_positive(i, stride, height);
            lemma_cell_of(i, stride, height);
            let row = i / stride;
            let byte = i % stride;
            let other = cell(height - 1 - row, byte, stride);
            lemma_cell(height - 1 - row, byte, stride, height);
            assert(twice[i] == once[other]);
            assert(once[other] == pixels[cell(height - 1 - (height - 1 - row), byte, stride)]);
        }
    }
    assert(twice =~= pixels);
}

/// Flipping leaves the middle row of an odd number of rows where it is.
pub proof fn law_flipping_keeps_the_middle_row(
    pixels: Seq<u8>,
    stride: int,
    height: int,
    byte: int,
)
    requires
        0 <= byte < stride,
        0 < height,
        height % 2 == 1,
        stride * height <= pixels.len(),
    ensures
        flipped(pixels, stride, height)[cell(height / 2, byte, stride)] == pixels[cell(
            height / 2,
            byte,
            stride,
        )],
{
    lemma_cell(height / 2, byte, stride, height);
}

/// Puts the rows in the opposite order.
pub fn flip_rows(pixels: &mut Vec<u8>, stride: usize, height: usize)
    requires
        stride * height <= old(pixels)@.len(),
    ensures
        final(pixels)@ == flipped(old(pixels)@, stride as int, height as int),
{
    let ghost original = pixels@;
    let ghost s = stride as int;
    let ghost h = height as int;
    if stride == 0 || height < 2 {
        proof {
            assert forall|i: int| 0 <= i < original.len() implies flipped(
                original,
                s,
                h,
            )[i] == original[i] by {
                if i < s * h {
                    lemma_rows_positive(i, s, h);
                    lemma_cell_of(i, s, h);
                }
            }
            assert(flipped(original, s, h) =~= original);
        }
        return;
    }
    let total: usize = pixels.len();
    let half: usize = height / 2;
    let mut row: usize = 0;
    while row < half
        invariant
            row <= half,
            half == height / 2,
            height >= 2,
            stride > 0,
            s == stride,
            h == height,
            s * h <= original.len(),
            total == original.len(),
            pixels@.len() == original.len(),
            forall|r: int, b: int|
                #![trigger pixels@[cell(r, b, s)]]
                0 <= r < h && 0 <= b < s ==> pixels@[cell(r, b, s)] == (if r < row || r > h - 1
                    - row {
                    original[cell(h - 1 - r, b, s)]
                } else {
                    original[cell(r, b, s)]
                }),
            forall|i: int| s * h <= i < original.len() ==> pixels@[i] == original[i],
        decreases half - row,
    {
        let other: usize = height - 1 - row;
        proof {
            lemma_cell(row as int, 0, s, h);
            lemma_cell(other as int, 0, s, h);
            assert(row * stride == cell(row as int, 0, s));
            assert(other * stride == cell(other as int, 0, s));
        }
        let top: usize = row * stride;
        let bottom: usize = other * stride;
        let ghost before = pixels@;
        let mut byte: usize = 0;
        while byte < stride
            invariant
                byte <= stride,
                row < half,
                half == height / 2,
                height >= 2,
                other == height - 1 - row,
                top == cell(row as int, 0, s),
                bottom == cell(other as int, 0, s),
                s == stride,
                h == height,
                s * h <= original.len(),
                total == original.len(),
                pixels@.len() == original.len(),
                before.len() == original.len(),
                forall|r: int, b: int|
                    #![trigger pixels@[cell(r, b, s)]]
                    0 <= r < h && 0 <= b < s ==> pixels@[cell(r, b, s)] == (if r == row && b
                        < byte {
                        before[cell(other as int, b, s)]
                    } else if r == other && b < byte {
                        before[cell(row as int, b, s)]
                    } else {
                        before[cell(r, b, s)]
                    }),
                forall|i: int| s * h <= i < original.len() ==> pixels@[i] == before[i],
            decreases stride - byte,
        {
            proof {
                lemma_cell(row as int, byte as int, s, h);
                lemma_cell(other as int, byte as int, s, h);
                assert(top + byte == cell(row as int, byte as int, s));
                assert(bottom + byte == cell(other as int, byte as int, s));
            }
            let ghost now = pixels@;
            let upper: u8 = pixels[top + byte];
            let lower: u8 = pixels[bottom + byte];
            pixels.set(top + byte, lower);
            pixels.set(bottom + byte, upper);
            proof {
                assert(now[cell(row as int, byte as int, s)] == before[cell(
                    row as int,
                    byte as int,
                    s,
                )]);
                assert(now[cell(other as int, byte as int, s)] == before[cell(
                    other as int,
                    byte as int,
                    s,
                )]);
                assert forall|r: int, b: int|
                    #![trigger pixels@[cell(r, b, s)]]
                    0 <= r < h && 0 <= b < s implies pixels@[cell(r, b, s)] == (if r == row && b
                    < byte + 1 {
                    before[cell(other as int, b, s)]
                } else if r == other && b < byte + 1 {
                    before[cell(row as int, b, s)]
                } else {
                    before[cell(r, b, s)]
                }) by {
                    lemma_cell(r, b, s, h);
                    if cell(r, b, s) != cell(row as int, byte as int, s) && cell(r, b, s) != cell(
                        other as int,
                        byte as int,
                        s,
                    ) {
                        assert(pixels@[cell(r, b, s)] == now[cell(r, b, s)]);
                    }
                }
            }
            byte = byte + 1;
        }
        proof {
            assert forall|r: int, b: int|
                #![trigger pixels@[cell(r, b, s)]]
                0 <= r < h && 0 <= b < s implies pixels@[cell(r, b, s)] == (if r < row + 1 || r > h
                - 1 - (row + 1) {
                original[cell(h - 1 - r, b, s)]
            } else {
                original[cell(r, b, s)]
            }) by {
                assert(before[cell(r, b, s)] == (if r < row || r > h - 1 - row {
                    original[cell(h - 1 - r, b, s)]
                } else {
                    original[cell(r, b, s)]
                }));
                assert(before[cell(row as int, b, s)] == original[cell(row as int, b, s)]);
                assert(before[cell(other as int, b, s)] == original[cell(other as int, b, s)]);
            }
        }
        row = row + 1;
    }
    proof {
        assert forall|i: int| 0 <= i < original.len() implies pixels@[i] == flipped(
            original,
            s,
            h,
        )[i] by {
            if i < s * h {
                lemma_cell_of(i, s, h);
                let r = i / s;
                let b = i % s;
                assert(pixels@[cell(r, b, s)] == pixels@[i]);
                if !(r < half || r > h - 1 - half) {
                    assert(r == h - 1 - r);
                }
            }
        }
        assert(pixels@ =~= flipped(original, s, h));
    }
}

/// The frame of a copy: the bytes that were read, with the rows put upright where they
/// stood upside down. It claims to be a real capture, so there is none unless the compositor
/// reported the copy as ready, and did not report it as failed.
pub fn assemble(
    pending: &PendingFrame,
    plan: CopyPlan,
    pixels: Vec<u8>,
    captured_at: UtcTimestamp,
) -> (r: Result<Frame, Error>)
    requires
        pixels@.len() == plan.size,
        plan.size == plan.spec.stride * plan.spec.height,
    ensures
        r is Ok <==> pending.ready && !pending.failed && frame_parts_agree(
            plan.format,
            plan.spec.width as int,
            plan.spec.height as int,
            plan.spec.stride as int,
            plan.size as int,
        ),
        r matches Ok(f) ==> f@ == (FrameView {
            origin: FrameOrigin::RealCapture,
            format: plan.format,
            width_px: plan.spec.width,
            height_px: plan.spec.height,
            stride_bytes: plan.spec.stride,
            captured_at,
            pixels: if pending.y_invert {
                flipped(pixels@, plan.spec.stride as int, plan.spec.height as int)
            } else {
                pixels@
            },
        }),
        r matches Err(e) ==> e@ == (if pending.failed || !pending.ready {
            pending.copy_error()
        } else {
            plain_error(
                ErrorCode::InvalidArgument,
                "the parts of a frame do not agree"@,
            ).with("width_px"@, DetailView::Int(plan.spec.width as int)).with(
                "height_px"@,
                DetailView::Int(plan.spec.height as int),
            ).with("stride_bytes"@, DetailView::Int(plan.spec.stride as int))
        }),
{
    match pending.copy_outcome() {
        Ok(()) => {},
        Err(e) => {
            return Err(e);
        },
    }
    let mut pixels = pixels;
    if pending.y_invert {
        flip_rows(&mut pixels, plan.spec.stride as usize, plan.spec.height as usize);
    }
    Frame::new(
        FrameOrigin::RealCapture,
        plan.format,
        plan.spec.width,
        plan.spec.height,
        plan.spec.stride,
        captured_at,
        pixels,
    )
}

/// What to do once the events at hand were dispatched.
#[derive(Debug, Clone, Copy, PartialEq, Eq, Structural)]
pub enum PumpStep {
    /// What was waited for is there.
    Done,
    /// The deadline has passed.
    TimedOut,
    /// Wait for more events, at most so long.
    WaitAtMost { nanos: u64 },
}

/// Decides whether to wait for more events: what was waited for ends the wait
/// even at the deadline, and at the deadline nothing else is waited for.
pub fn pump_step(done: bool, now_nanos: u64, deadline_nanos: u64) -> (r: PumpStep)
    ensures
        r == (if done {
            PumpStep::Done
        } else if now_nanos >= deadline_nanos {
            PumpStep::TimedOut
        } else {
            PumpStep::WaitAtMost { nanos: (deadline_nanos - now_nanos) as u64 }
        }),
{
    if done {
        PumpStep::Done
    } else if now_nanos >= deadline_nanos {
        PumpStep::TimedOut
    } else {
        PumpStep::WaitAtMost { nanos: deadline_nanos - now_nanos }
    }
}

/// One output of the compositor: its number in the registry, the handle it was
/// bound to, and its name once it is known.
#[derive(Debug)]
pub struct OutputEntry<H> {
    pub global_name: u32,
    pub output: H,
    pub name: Option<String>,
}

/// What an [`OutputEntry`] holds.
pub struct OutputEntryView<H> {
    pub global_name: u32,
    pub output: H,
    pub name: Option<Seq<char>>,
}

impl<H> View for OutputEntry<H> {
    type V = OutputEntryView<H>;

    open spec fn view(&self) -> OutputEntryView<H> {
        OutputEntryView {
            global_name: self.global_name,
            output: self.output,
            name: match self.name {
                Some(n) => Some(n@),
                None => None,
            },
        }
    }
}

/// The outputs that the compositor has announced, in order.
#[derive(Debug)]
pub struct OutputTable<H> {
    entries: Vec<OutputEntry<H>>,
}

/// The entries that are not `global_name`.
pub open spec fn entries_without<H>(entries: Seq<OutputEntryView<H>>, global_name: u32) -> Seq<
    OutputEntryView<H>,
>
    decreases entries.len(),
{
    if entries.len() == 0 {
        Seq::empty()
    } else if entries.last().global_name == global_name {
        entries_without(entries.drop_last(), global_name)
    } else {
        entries_without(entries.drop_last(), global_name).push(entries.last())
    }
}

/// The position of the first entry with the number, or the number of entries.
pub open spec fn entry_at<H>(entries: Seq<OutputEntryView<H>>, global_name: u32) -> nat
    decreases entries.len(),
{
    if entries.len() == 0 || entries.first().global_name == global_name {
        0
    } else {
        1 + entry_at(entries.drop_first(), global_name)
    }
}

/// The names that are known, in order.
pub open spec fn known_names<H>(entries: Seq<OutputEntryView<H>>) -> Seq<Seq<char>>
    decreases entries.len(),
{
    if entries.len() == 0 {
        Seq::empty()
    } else {
        let earlier = known_names(entries.drop_last());
        match entries.last().name {
            Some(n) => earlier.push(n),
            None => earlier,
        }
    }
}

/// The first entry with the name.
pub open spec fn named<H>(entries: Seq<OutputEntryView<H>>, name: Seq<char>) -> Option<H>
    decreases entries.len(),
{
    if entries.len() == 0 {
        None
    } else if entries.first().name == Some(name) {
        Some(entries.first().output)
    } else {
        named(entries.drop_first(), name)
    }
}

spec fn entry_views<H>(entries: Seq<OutputEntry<H>>) -> Seq<OutputEntryView<H>> {
    Seq::new(entries.len(), |i: int| entries[i]@)
}

impl<H> View for OutputTable<H> {
    type V = Seq<OutputEntryView<H>>;

    closed spec fn view(&self) -> Seq<OutputEntryView<H>> {
        entry_views(self.entries@)
    }
}

impl<H> OutputTable<H> {
    /// No output.
    pub fn new() -> (r: Self)
        ensures
            r@ == Seq::<OutputEntryView<H>>::empty(),
    {
        let r = OutputTable { entries: Vec::new() };
        assert(r@ =~= Seq::<OutputEntryView<H>>::empty());
        r
    }

    /// How many outputs there are.
    pub fn len(&self) -> (r: usize)
        ensures
            r == self@.len(),
    {
        self.entries.len()
    }

    /// The version to bind an output with: what is offered, up to the newest that
    /// is known.
    pub fn bind_version(offered: u32) -> (r: u32)
        ensures
            r == (if offered < OUTPUT_VERSION {
                offered
            } else {
                OUTPUT_VERSION
            }),
    {
        if offered < OUTPUT_VERSION {
            offered
        } else {
            OUTPUT_VERSION
        }
    }

    /// Takes note of an output whose name is not known yet.
    pub fn announce(&mut self, global_name: u32, output: H)
        ensures
            final(self)@ == old(self)@.push(OutputEntryView { global_name, output, name: None }),
    {
        self.entries.push(OutputEntry { global_name, output, name: None });
        assert(self@ =~= old(self)@.push(OutputEntryView { global_name, output, name: None }));
    }

    /// Forgets the output with the given number.
    pub fn withdraw(&mut self, global_name: u32)
        ensures
            final(self)@ == entries_without(old(self)@, global_name),
        decreases old(self)@.len(),
    {
        match self.entries.pop() {
            None => {
                assert(self@ =~= entries_without(old(self)@, global_name));
            },
            Some(last) => {
                assert(self@ =~= old(self)@.drop_last());
                let ghost kept_view = last@;
                self.withdraw(global_name);
                if last.global_name != global_name {
                    let ghost so_far = self@;
                    self.entries.push(last);
                    assert(self@ =~= so_far.push(kept_view));
                }
            },
        }
    }

    /// Takes note of the name of the first output with the given number.
    pub fn set_name(&mut self, global_name: u32, name: String)
        ensures
            ({
                let at = entry_at(old(self)@, global_name) as int;
                if at < old(self)@.len() {
                    final(self)@ == old(self)@.update(
                        at,
                        OutputEntryView { name: Some(name@), ..old(self)@[at] },
                    )
                } else {
                    final(self)@ == old(self)@
                }
            }),
    {
        let ghost all = self@;
        let mut i: usize = 0;
        assert(all.skip(0) =~= all);
        while i < self.entries.len()
            invariant
                i <= self.entries.len(),
                *self == *old(self),
                all == self@,
                entry_at(all, global_name) == i + entry_at(all.skip(i as int), global_name),
            decreases self.entries.len() - i,
        {
            let ghost here = all.skip(i as int);
            assert(here.first() == self.entries@[i as int]@);
            assert(here.drop_first() =~= all.skip(i as int + 1));
            if self.entries[i].global_name == global_name {
                let entry = &mut self.entries[i];
                entry.name = Some(name);
                assert(self@ =~= all.update(
                    i as int,
                    OutputEntryView { name: Some(name@), ..all[i as int] },
                ));
                return;
            }
            i = i + 1;
        }
    }

    /// The names that are known, in order.
    pub fn names(&self) -> (r: Vec<String>)
        ensures
            texts(r@) == known_names(self@),
    {
        let mut r: Vec<String> = Vec::new();
        let mut i: usize = 0;
        assert(texts(r@) =~= Seq::<Seq<char>>::empty());
        assert(self@.take(0) =~= Seq::<OutputEntryView<H>>::empty());
        while i < self.entries.len()
            invariant
                i <= self.entries.len(),
                texts(r@) == known_names(self@.take(i as int)),
            decreases self.entries.len() - i,
        {
            let ghost done = self@.take(i as int + 1);
            let ghost so_far = texts(r@);
            assert(done.drop_last() =~= self@.take(i as int));
            assert(done.last() == self.entries@[i as int]@);
            match &self.entries[i].name {
                Some(n) => {
                    r.push(n.clone());
                    assert(texts(r@) =~= so_far.push(n@));
                },
                None => {},
            }
            i = i + 1;
        }
        assert(self@.take(i as int) =~= self@);
        r
    }

    /// The handle of the first output called `id`.
    pub fn find(&self, id: &OutputId) -> (r: Result<&H, Error>)
        ensures
            match named(self@, id@) {
                Some(h) => r is Ok && *r->Ok_0 == h,
                None => r is Err && r->Err_0@ == plain_error(
                    ErrorCode::InvalidArgument,
                    "the compositor does not advertise an output with that name"@,
                ).with("output"@, DetailView::Text(id@)),
            },
    {
        let mut i: usize = 0;
        assert(self@.skip(0) =~= self@);
        while i < self.entries.len()
            invariant
                i <= self.entries.len(),
                named(self@, id@) == named(self@.skip(i as int), id@),
            decreases self.entries.len() - i,
        {
            let ghost here = self@.skip(i as int);
            assert(here.first() == self.entries@[i as int]@);
            assert(here.drop_first() =~= self@.skip(i as int + 1));
            let found = match &self.entries[i].name {
                Some(n) => same_text(n.as_str(), id.as_str()),
                None => false,
            };
            if found {
                return Ok(&self.entries[i].output);
            }
            i = i + 1;
        }
        Err(
            Error::new(
                ErrorCode::InvalidArgument,
                "the compositor does not advertise an output with that name",
                TraceId::unattributed(),
            ).with_detail("output", id.as_str()),
        )
    }
}

/// Captures, and tries again as often as the policy allows, with a wait between
/// two attempts.
pub fn capture_with_retry<S: FrameSource, W: BackoffWait>(
    source: &mut S,
    output: &OutputId,
    policy: RetryPolicy,
    wait: &mut W,
) -> (r: Result<Frame, Error>)
    ensures
        retry_run(
            policy,
            output@,
            final(source).captures().skip(old(source).captures().len() as int),
            capture_outcome(r),
        ),
        old(source).captures().is_prefix_of(final(source).captures()),
        final(wait).ceilings() == old(wait).ceilings() + first_ceilings(
            policy,
            (final(source).captures().len() - old(source).captures().len() - 1) as nat,
        ),
{
    let ghost start = source.captures();
    let limit: u8 = policy.max_retries();
    assert(wait.ceilings() =~= old(wait).ceilings() + first_ceilings(policy, 0));
    let mut attempts_made: u8 = 0;
    loop
        invariant
            attempts_made <= limit <= 5,
            limit == policy.retries(),
            source.captures().len() == start.len() + attempts_made,
            start == old(source).captures(),
            start.is_prefix_of(source.captures()),
            forall|i: int|
                start.len() <= i < source.captures().len() ==> (
                #[trigger] source.captures()[i]).output == output@
                    && source.captures()[i].outcome is Err,
            wait.ceilings() == old(wait).ceilings() + first_ceilings(policy, attempts_made as nat),
        decreases policy.retries() - attempts_made,
    {
        let ghost earlier = source.captures();
        let outcome = source.capture(output);
        proof {
            assert(source.captures().subrange(0, start.len() as int) =~= earlier.subrange(
                0,
                start.len() as int,
            ));
            let run = source.captures().skip(start.len() as int);
            assert forall|i: int| 0 <= i < run.len() - 1 implies (#[trigger] run[i]).output
                == output@ && run[i].outcome is Err by {
                assert(run[i] == earlier[start.len() + i]);
            }
            assert(run.last() == source.captures().last());
        }
        match outcome {
            Ok(frame) => {
                return Ok(frame);
            },
            Err(e) => {
                if !policy.should_retry(attempts_made) {
                    return Err(e);
                }
                let ghost waited = wait.ceilings();
                wait.wait_up_to(policy.delay_ceiling_millis(attempts_made as u32));
                assert(wait.ceilings() =~= old(wait).ceilings() + first_ceilings(
                    policy,
                    attempts_made as nat + 1,
                ));
                attempts_made = attempts_made + 1;
            },
        }
    }
}

/// The attempts of a capture with retries, and what is told of it: every attempt
/// but the last failed, the last one's outcome is told, and an error is told only
/// when no retry is left.
pub open spec fn retry_run(
    policy: RetryPolicy,
    output: Seq<char>,
    attempts: Seq<CaptureView>,
    outcome: Result<FrameView, ErrorView>,
) -> bool {
    &&& 1 <= attempts.len() <= policy.retries() + 1
    &&& forall|i: int|
        0 <= i < attempts.len() - 1 ==> (#[trigger] attempts[i]).outcome is Err
    &&& forall|i: int| 0 <= i < attempts.len() ==> (#[trigger] attempts[i]).output == output
    &&& attempts.last().outcome == outcome
    &&& outcome is Err ==> attempts.len() == policy.retries() + 1
}

/// A capture that keeps failing is tried once more than the policy retries, and a
/// policy without retries asks exactly once.
pub proof fn law_failing_capture_is_tried_to_the_end(
    policy: RetryPolicy,
    output: Seq<char>,
    attempts: Seq<CaptureView>,
    outcome: Result<FrameView, ErrorView>,
)
    requires
        retry_run(policy, output, attempts, outcome),
    ensures
        outcome is Err ==> attempts.len() == policy.retries() + 1,
        policy.retries() == 0 ==> attempts.len() == 1,
{
}

} // verus!
