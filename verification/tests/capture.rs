use schorl::capture::screencopy::{
    assemble, capture_with_retry, flip_rows, pump_step, supported_format, CaptureStep, FrameEvent,
    OutputTable, PendingFrame, PumpStep, WL_SHM_ARGB8888, WL_SHM_XRGB8888,
};
use schorl::capture::testing::SolidColourFrameSource;
use schorl::capture::FrameSource;
use schorl::display::OutputId;
use schorl::error::{Error, ErrorCode};
use schorl::frame::{Frame, FrameOrigin, PixelFormat};
use schorl::id::TraceId;
use schorl::retry::{Backoff, RetryPolicy};
use schorl::testing::RecordedWaits;
use schorl::time::UtcTimestamp;
use wayland_client::protocol::wl_shm;

fn at(millis: i64) -> UtcTimestamp {
    UtcTimestamp::from_millis_since_epoch(millis)
}

#[test]
fn a_test_double_frame_is_not_a_real_capture() {
    let mut source = SolidColourFrameSource::new(4, 2, 0x20, at(1));
    let output = OutputId::new("SCHORL-1").expect("valid name");
    let frame = source.capture(&output).expect("captured");
    assert_eq!(frame.origin(), FrameOrigin::TestDouble);
    assert!(!frame.is_real_capture());
    assert_eq!(frame.pixels().len(), 4 * 4 * 2);
}

#[test]
fn only_the_two_formats_the_frame_type_knows_are_accepted() {
    assert_eq!(
        supported_format(wl_shm::Format::Xrgb8888 as u32),
        Some(PixelFormat::Xrgb8888)
    );
    assert_eq!(
        supported_format(wl_shm::Format::Argb8888 as u32),
        Some(PixelFormat::Argb8888)
    );
    assert_eq!(supported_format(wl_shm::Format::Rgb565 as u32), None);
    assert_eq!(WL_SHM_ARGB8888, wl_shm::Format::Argb8888 as u32);
    assert_eq!(WL_SHM_XRGB8888, wl_shm::Format::Xrgb8888 as u32);
}

#[test]
fn flipping_rows_undoes_itself() {
    let original: Vec<u8> = (0..24).collect();
    let mut pixels = original.clone();
    flip_rows(&mut pixels, 4, 6);
    assert_eq!(&pixels[0..4], &original[20..24]);
    assert_eq!(&pixels[20..24], &original[0..4]);
    flip_rows(&mut pixels, 4, 6);
    assert_eq!(pixels, original);
}

#[test]
fn flipping_an_odd_height_keeps_the_middle_row() {
    let original: Vec<u8> = (0..15).collect();
    let mut pixels = original.clone();
    flip_rows(&mut pixels, 3, 5);
    assert_eq!(&pixels[6..9], &original[6..9]);
    assert_eq!(&pixels[0..3], &original[12..15]);
}

/// Fails as often as it was told, then captures.
struct FlakyFrameSource {
    remaining_failures: u32,
    attempts: u32,
    inner: SolidColourFrameSource,
}

impl FrameSource for FlakyFrameSource {
    fn capture(&mut self, output: &OutputId) -> Result<Frame, Error> {
        self.attempts += 1;
        if self.remaining_failures > 0 {
            self.remaining_failures -= 1;
            return Err(Error::new(
                ErrorCode::HostRefused,
                "not yet",
                TraceId::unattributed(),
            ));
        }
        self.inner.capture(output)
    }
}

fn flaky(failures: u32) -> FlakyFrameSource {
    FlakyFrameSource {
        remaining_failures: failures,
        attempts: 0,
        inner: SolidColourFrameSource::new(2, 2, 0x11, at(0)),
    }
}

fn policy(max: u8) -> RetryPolicy {
    RetryPolicy::new(
        max,
        Backoff::ExponentialJitter {
            base_millis: 10,
            cap_millis: 100,
        },
    )
    .expect("inside the pinned range")
}

#[test]
fn retrying_gives_up_after_the_pinned_number_of_attempts() {
    let mut source = flaky(u32::MAX);
    let mut waits = RecordedWaits::new();
    let err = capture_with_retry(
        &mut source,
        &OutputId::new("SCHORL-1").expect("valid name"),
        policy(3),
        &mut waits,
    )
    .expect_err("always fails");
    assert_eq!(err.code(), ErrorCode::HostRefused);
    assert_eq!(source.attempts, 4, "one attempt plus three retries");
    assert_eq!(
        waits.ceilings_millis(),
        [10, 20, 40],
        "full jitter at its ceiling doubles each time until the cap"
    );
}

#[test]
fn retrying_returns_the_first_frame_that_arrives() {
    let mut source = flaky(2);
    let frame = capture_with_retry(
        &mut source,
        &OutputId::new("SCHORL-1").expect("valid name"),
        policy(5),
        &mut RecordedWaits::new(),
    )
    .expect("the third attempt works");
    assert_eq!(source.attempts, 3);
    assert!(!frame.is_real_capture());
}

#[test]
fn a_policy_that_forbids_retries_asks_exactly_once() {
    let mut source = flaky(1);
    let mut waits = RecordedWaits::new();
    let err = capture_with_retry(
        &mut source,
        &OutputId::new("SCHORL-1").expect("valid name"),
        policy(0),
        &mut waits,
    )
    .expect_err("no retries allowed");
    assert_eq!(err.code(), ErrorCode::HostRefused);
    assert_eq!(source.attempts, 1);
    assert!(waits.ceilings_millis().is_empty());
}

fn offered(format: u32, width: u32, height: u32, stride: u32) -> PendingFrame {
    let mut pending = PendingFrame::default();
    pending.apply(FrameEvent::Buffer {
        format,
        width,
        height,
        stride,
    });
    pending.apply(FrameEvent::BufferDone);
    pending
}

#[test]
fn an_offered_buffer_becomes_a_plan() {
    let pending = offered(WL_SHM_XRGB8888, 4, 3, 16);
    assert!(pending.offer_is_over());
    assert!(!pending.copy_is_over());
    let plan = pending.choose_buffer().expect("usable");
    assert_eq!(plan.size, 48);
    assert_eq!(plan.format, PixelFormat::Xrgb8888);
}

#[test]
fn an_unknown_buffer_format_is_refused() {
    let err = offered(wl_shm::Format::Rgb565 as u32, 4, 3, 16)
        .choose_buffer()
        .expect_err("no usable buffer");
    assert_eq!(err.code(), ErrorCode::HostRefused);
    assert_eq!(err.details().len(), 1, "it names the format");
    let none = PendingFrame::default();
    assert!(none.choose_buffer().is_err());
}

#[test]
fn a_failed_copy_is_told_from_a_finished_one() {
    let mut failed = offered(WL_SHM_ARGB8888, 1, 1, 4);
    failed.apply(FrameEvent::Failed);
    assert!(failed.copy_is_over());
    assert!(failed.copy_outcome().is_err());
    let mut ready = offered(WL_SHM_ARGB8888, 1, 1, 4);
    ready.apply(FrameEvent::Ready);
    assert!(ready.copy_is_over());
    assert!(ready.copy_outcome().is_ok());
}

#[test]
fn an_inverted_buffer_is_turned_upright() {
    let plan = offered(WL_SHM_XRGB8888, 1, 2, 4)
        .choose_buffer()
        .expect("usable");
    let bytes: Vec<u8> = (0..8).collect();
    let ready = PendingFrame {
        ready: true,
        ..PendingFrame::default()
    };
    let upright = assemble(&ready, plan, bytes.clone(), at(9)).expect("frame");
    assert_eq!(upright.pixels(), &bytes[..]);
    assert!(upright.is_real_capture());
    assert_eq!(upright.captured_at(), at(9));
    let plan = offered(WL_SHM_XRGB8888, 1, 2, 4)
        .choose_buffer()
        .expect("usable");
    let inverted = PendingFrame {
        y_invert: true,
        ..ready
    };
    let turned = assemble(&inverted, plan, bytes, at(9)).expect("frame");
    assert_eq!(turned.pixels(), [4, 5, 6, 7, 0, 1, 2, 3]);
}

#[test]
fn no_frame_is_real_unless_the_compositor_said_that_it_is_ready() {
    let plan = offered(WL_SHM_XRGB8888, 1, 1, 4)
        .choose_buffer()
        .expect("usable");
    let said = |ready: bool, failed: bool| {
        let pending = PendingFrame {
            ready,
            failed,
            ..PendingFrame::default()
        };
        assemble(&pending, plan, vec![0; 4], at(1))
    };
    assert!(said(true, false).expect("ready").is_real_capture());
    assert_eq!(
        said(false, false).expect_err("not ready").message(),
        "the compositor never reported the frame as ready"
    );
    for ready in [false, true] {
        assert_eq!(
            said(ready, true).expect_err("failed").message(),
            "the compositor reported the copy as failed"
        );
    }
}

#[test]
fn waiting_ends_at_the_deadline() {
    assert_eq!(pump_step(true, 99, 5), PumpStep::Done);
    assert_eq!(pump_step(false, 5, 5), PumpStep::TimedOut);
    assert_ne!(pump_step(false, 4, 5), PumpStep::TimedOut);
    assert_eq!(CaptureStep::Dispatch.failed().code(), ErrorCode::HostRefused);
    assert_eq!(CaptureStep::Deadline.failed().source(), None);
    assert_eq!(
        CaptureStep::Read.failed_with("broken pipe").source(),
        Some("broken pipe")
    );
}

#[test]
fn outputs_are_found_by_their_names_until_they_go() {
    let mut table: OutputTable<char> = OutputTable::new();
    table.announce(7, 'a');
    table.announce(9, 'b');
    table.set_name(9, "DP-1".to_owned());
    assert_eq!(table.len(), 2);
    assert_eq!(table.names(), vec!["DP-1".to_owned()]);
    let id = OutputId::new("DP-1").expect("valid name");
    assert_eq!(table.find(&id).expect("there"), &'b');
    table.withdraw(9);
    assert!(table.find(&id).is_err());
    assert_eq!(OutputTable::<char>::bind_version(9), 4);
    assert_eq!(OutputTable::<char>::bind_version(2), 2);
}

#[test]
fn a_frame_whose_parts_do_not_agree_is_refused() {
    let make = |stride: u32, bytes: usize| {
        Frame::new(
            FrameOrigin::RealCapture,
            PixelFormat::Argb8888,
            2,
            2,
            stride,
            at(0),
            vec![0; bytes],
        )
    };
    assert!(make(8, 16).is_ok());
    assert!(make(12, 24).is_ok());
    assert_eq!(
        make(7, 14).expect_err("rows too short").code(),
        ErrorCode::InvalidArgument
    );
    assert!(make(8, 15).is_err());
}
