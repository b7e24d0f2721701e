use schorl::compositor::args::{bad_argument, is_fraction_text, parse_nested_args, parse_whole_number};
use schorl::compositor::buffer::{
    default_dmabuf_formats, ClientBufferKind, ClientTextureImporter, DmabufHandoff,
    RecordingImporter, ShmBufferView,
};
use schorl::compositor::journal::{Journal, Uuidv7IdGen};
use schorl::compositor::keyboard::{from_xkb, to_xkb, EVDEV_TO_XKB_OFFSET};
use schorl::compositor::keys::DeliveredKeys;
use schorl::compositor::pointer::{
    button_of_code, event_time_ms, evdev_button_code, PointerDelivery,
};
use schorl::compositor::run::{
    accepted_text, client_command, frame_time_ms, headless_client_not_started, headless_round_begins,
    headless_run_ends, listening_text, nested_client_not_started, nested_step, pump_turn,
    runtime_dir_missing, HeadlessOptions, HeadlessOutcome, NestedOutcome, NestedStep, PumpTurn,
    RunEvent, RunStep, RunTally,
};
use schorl::compositor::socket::{accept_failed, bind_failed, refuse_host_socket, SocketName};
use schorl::compositor::state::{
    CompositorCore, KeyOrder, PointerOrder, DEFAULT_ATLAS_GUTTER_PX, DEFAULT_WINDOW_HEIGHT_PX,
    DEFAULT_WINDOW_WIDTH_PX,
};
use schorl::compositor::window::{
    atlas_for, atlas_point_of, local_pixel_of, AtlasPoint, AtlasRect, WindowId, WindowRegistry,
};
use schorl::error::{Error, ErrorCode};
use schorl::id::{Id, IdGen, IdScheme, IdempotencyKey, TraceId};
use schorl::input::{
    ButtonState, KeyEvent, Keycode, PointerButton, PointerEvent, PointerEventKind,
};
use schorl::log::{LogRecord, LogSink};
use schorl::panel::cursor::{PixelPoint, PointerHold};
use schorl::panel::testing::{GridGeometry, GridPose, GridSize};
use schorl::panel::PanelPose;
use schorl::testing::{CapturingLogSink, FixedClock, SequentialIdGen};
use schorl::time::UtcTimestamp;

fn window(text: &str) -> WindowId {
    WindowId::new(Id::new(IdScheme::Uuidv7, text).expect("non empty"))
}

fn shm_view(bytes: &[u8]) -> ShmBufferView<'_> {
    ShmBufferView {
        wl_shm_format: 0,
        width_px: 4,
        height_px: 2,
        stride_bytes: 16,
        offset_bytes: 0,
        bytes,
    }
}

fn handoff() -> DmabufHandoff {
    DmabufHandoff {
        fourcc: 0x3432_5258,
        modifier: 0,
        width_px: 4,
        height_px: 2,
        plane_count: 1,
    }
}

#[test]
fn the_recording_importer_keeps_both_kinds_apart() {
    let mut importer = RecordingImporter::new();
    let w = window("w-1");
    importer
        .import_shm(&w, shm_view(&[0u8; 32]))
        .expect("accepted");

    assert_eq!(importer.count(), 1);
    assert_eq!(importer.seen()[0].1, ClientBufferKind::Shm);
    assert!(importer.dmabufs().is_empty());
    importer
        .import_dmabuf(None, handoff(), &())
        .expect("accepted");
    assert_eq!(importer.count(), 2);
    assert_eq!(importer.seen()[1].1, ClientBufferKind::Dmabuf);
    assert_eq!(importer.dmabufs().len(), 1);
}

#[test]
fn an_empty_uuid_text_is_refused_as_any_identifier_is() {
    let err = Uuidv7IdGen::id_of("").expect_err("empty");
    assert_eq!(err.code(), ErrorCode::InvalidArgument);
    assert_eq!(err.message(), "identifier text must not be empty");
    assert_eq!(
        err.envelope().to_json().render(),
        Id::new(IdScheme::Uuidv7, "")
            .expect_err("empty")
            .envelope()
            .to_json()
            .render()
    );
}

#[test]
fn buffer_kind_spelling_is_stable() {
    assert_eq!(ClientBufferKind::Shm.as_str(), "shm");
    assert_eq!(ClientBufferKind::Dmabuf.as_str(), "dmabuf");
}

#[test]
fn uuidv7_ids_are_distinct_and_carry_the_pinned_scheme() {
    let mut ids = Uuidv7IdGen::new();
    assert_eq!(ids.scheme(), IdScheme::Uuidv7);
    let a = ids.next_id().expect("generated");
    let b = ids.next_id().expect("generated");
    assert_eq!(a.scheme(), IdScheme::Uuidv7);
    assert_ne!(a.as_str(), b.as_str());
    assert_eq!(a.as_str().len(), 36, "hyphenated uuid is 36 characters");
}

#[test]
fn a_uuid_is_hexadecimal_in_five_groups_and_of_version_seven() {
    let mut ids = Uuidv7IdGen::new();
    let text = ids.next_id().expect("generated").as_str().to_owned();
    let parsed = uuid::Uuid::parse_str(&text).expect("a uuid");
    assert_eq!(parsed.get_version_num(), 7);
    assert_eq!(parsed.to_string(), text);
    for (i, c) in text.chars().enumerate() {
        if [8, 13, 18, 23].contains(&i) {
            assert_eq!(c, '-');
        } else {
            assert!(matches!(c, '0'..='9' | 'a'..='f'), "{text}");
        }
    }
    assert_eq!(text.chars().nth(14), Some('7'));
}

#[test]
fn every_line_carries_the_four_pinned_fields_and_the_same_trace_id() {
    let mut journal = Journal::with_new_trace(
        FixedClock::at_millis(7),
        CapturingLogSink::new(),
        &mut Uuidv7IdGen::new(),
    )
    .expect("trace id issued");

    journal.info("socket bound").expect("emitted");
    journal.warn("client gone").expect("emitted");

    let lines = journal.sink().lines();
    assert_eq!(lines.len(), 2);
    let trace = journal.trace_id().as_str().expect("attributed").to_owned();
    for line in lines {
        assert!(line.starts_with("{\"ts\":7,\"level\":"), "{line}");
        assert!(
            line.contains(&format!("\"trace_id\":\"{trace}\"")),
            "{line}"
        );
        assert!(line.contains("\"msg\":"), "{line}");
    }
}

#[test]
fn the_offset_between_evdev_and_xkb_is_eight() {
    assert_eq!(EVDEV_TO_XKB_OFFSET, 8);
    assert_eq!(to_xkb(Keycode(30)), 38);
    assert_eq!(from_xkb(38), Keycode(30));
}

#[test]
fn the_button_numbers_are_the_ones_the_kernel_header_defines() {
    assert_eq!(evdev_button_code(PointerButton::Left), 0x110);
    assert_eq!(evdev_button_code(PointerButton::Right), 0x111);
    assert_eq!(evdev_button_code(PointerButton::Middle), 0x112);
}

#[test]
fn a_button_is_known_by_its_number() {
    assert_eq!(button_of_code(0x111), Some(PointerButton::Right));
    assert_eq!(button_of_code(0x113), None);
}

#[test]
fn event_times_start_over() {
    let at = |millis: i64| event_time_ms(UtcTimestamp::from_millis_since_epoch(millis));
    assert_eq!(at(5), 5);
    assert_eq!(at(0x1_0000_0002), 2);
    assert_eq!(at(-1), u32::MAX);
}

#[test]
fn an_empty_socket_name_is_refused_with_an_envelope() {
    let err = SocketName::new("").expect_err("empty is refused");
    assert_eq!(err.code(), ErrorCode::InvalidArgument);
}

#[test]
fn the_host_socket_name_is_refused() {
    let err = refuse_host_socket("wayland-1", Some("wayland-1")).expect_err("the host keeps it");
    assert_eq!(err.code(), ErrorCode::InvalidArgument);
    assert!(refuse_host_socket("wayland-2", Some("wayland-1")).is_ok());
    assert!(refuse_host_socket("wayland-2", None).is_ok());
}

#[test]
fn a_socket_without_a_readable_name_is_an_error() {
    assert_eq!(
        SocketName::reported(true, Some("wayland-3"))
            .expect("named")
            .as_str(),
        "wayland-3"
    );
    assert!(SocketName::reported(false, None).is_err());
    assert!(SocketName::reported(true, None).is_err());
    assert_eq!(
        bind_failed("wayland-3", "in use").details().len(),
        2
    );
    assert_eq!(accept_failed("gone").source(), Some("gone"));
}

#[test]
fn the_same_idempotency_key_is_only_admitted_once() {
    let mut keys = DeliveredKeys::new();
    assert!(keys.accept("k-1"));
    assert!(!keys.accept("k-1"));
    assert!(keys.accept("k-2"));
}

#[test]
fn the_key_memory_is_bounded() {
    let mut keys = DeliveredKeys::new();
    for n in 0..(DeliveredKeys::CAPACITY + 10) {
        assert!(keys.accept(&format!("k-{n}")));
    }
    assert!(keys.accept("k-0"));
}

#[test]
fn the_default_dmabuf_formats_are_not_empty() {
    assert!(!default_dmabuf_formats().is_empty());
}

#[test]
fn the_default_dmabuf_formats_are_those_of_the_drm_header() {
    let told: Vec<(u32, u64)> = default_dmabuf_formats()
        .iter()
        .map(|(format, modifier)| (format.as_u32(), modifier.as_u64()))
        .collect();
    let untold = 0x00ff_ffff_ffff_ffff;
    let wanted = vec![
        (0x3432_5241, untold),
        (0x3432_5241, 0),
        (0x3432_5258, untold),
        (0x3432_5258, 0),
    ];
    assert_eq!(told, wanted);
}

// Rectangles and points.

#[test]
fn a_local_pixel_and_its_atlas_point_belong_together() {
    let rect = AtlasRect {
        x: 1344,
        y: 0,
        width_px: 1280,
        height_px: 720,
    };
    for local in [
        PixelPoint { x: 0, y: 0 },
        PixelPoint { x: 640, y: 360 },
        PixelPoint { x: -9, y: 4000 },
    ] {
        assert_eq!(local_pixel_of(rect, atlas_point_of(rect, local)), local);
    }
    let far = AtlasPoint {
        x: i64::MAX,
        y: i64::MIN,
    };
    assert_eq!(
        local_pixel_of(rect, far),
        PixelPoint {
            x: i32::MAX,
            y: i32::MIN
        }
    );
}

fn placed(sizes: &[(i32, i32)]) -> WindowRegistry<u8, GridSize, GridPose> {
    let mut reg: WindowRegistry<u8, GridSize, GridPose> = WindowRegistry::new(64);
    for (n, size) in sizes.iter().enumerate() {
        assert!(reg.room_for(*size));
        reg.insert(
            window(&format!("w-{n}")),
            n as u8,
            *size,
            plane_size(),
            plane_pose(),
        )
        .expect("placed");
    }
    reg
}

#[test]
fn windows_of_different_sizes_never_overlap() {
    let reg = placed(&[(1280, 720), (100, 100), (3000, 10), (1, 1)]);
    let rects: Vec<AtlasRect> = reg.windows().iter().map(|w| w.rect()).collect();
    let lefts: Vec<i32> = rects.iter().map(|r| r.x).collect();
    assert_eq!(lefts, [0, 1344, 6128, 9192]);
    for (i, a) in rects.iter().enumerate() {
        for (j, b) in rects.iter().enumerate() {
            assert_eq!(a.overlaps(b), i == j);
        }
    }
}

#[test]
fn a_point_inside_a_smaller_window_finds_that_window() {
    let reg = placed(&[(1280, 720), (100, 100)]);
    let r = reg.get(&window("w-1")).expect("tracked").rect();
    assert_eq!(r.x, 1344);
    let point = AtlasPoint {
        x: i64::from(r.x) + 3,
        y: i64::from(r.y) + 3,
    };
    let found = reg.window_at(point).expect("found");
    assert_eq!(found.id().as_str(), "w-1");
    assert!(reg.window_at(AtlasPoint { x: 1300, y: 3 }).is_none());
}

#[test]
fn a_window_takes_its_place_in_line_where_it_is_clear() {
    let reg = placed(&[(100, 100), (1280, 720), (100, 100)]);
    let lefts: Vec<i32> = reg.windows().iter().map(|w| w.rect().x).collect();
    assert_eq!(lefts, [0, 1344, 328]);
    let line: Vec<i32> = (0..3)
        .map(|index| atlas_for(64, index, (1280, 720)).x)
        .collect();
    assert_eq!(line, [0, 1344, 2688]);
}

#[test]
fn inserting_hands_the_window_back() {
    let mut reg = placed(&[(100, 100)]);
    assert!(reg.room_for((10, 20)));
    let w = reg
        .insert(window("new"), 9, (10, 20), plane_size(), plane_pose())
        .expect("placed");
    assert_eq!(w.id().as_str(), "new");
    assert_eq!(*w.handle(), 9);
    assert!(!w.is_mapped());
    assert_eq!(w.rect().width_px, 10);
}

#[test]
fn a_toplevel_without_a_plane_uses_up_a_name_and_no_place() {
    let mut core = compositor();
    let refusal = Error::new(ErrorCode::InvalidArgument, "no plane", TraceId::unattributed());
    core.new_toplevel(7, Err(refusal), "nowhere");
    assert_eq!(core.windows().len(), 0);
    assert_eq!(core.windows().next_index(), 0);
    assert!(last_line(&core).contains("placing a new toplevel: no plane"));
    core.new_toplevel(8, Ok((plane_size(), plane_pose())), "here");
    assert!(last_line(&core).contains("tracking toplevel w-00000002"));
}

#[test]
fn a_window_that_is_gone_leaves_its_place_empty() {
    let mut reg = placed(&[(1280, 720), (100, 100)]);
    assert!(reg.remove(|handle: &u8| *handle == 1).is_some());
    assert!(reg.room_for((50, 50)));
    reg.insert(window("w-2"), 2, (50, 50), plane_size(), plane_pose())
        .expect("placed");
    assert_eq!(reg.get(&window("w-0")).expect("tracked").rect().x, 0);
    assert_eq!(reg.get(&window("w-2")).expect("tracked").rect().x, 1508);
}

#[test]
fn focus_goes_by_the_order_of_mapping_and_not_of_insertion() {
    let mut reg = placed(&[(100, 100), (100, 100), (100, 100)]);
    assert!(reg.focus_candidate().is_none());
    reg.get_mut(&window("w-1")).expect("tracked").mark_mapped();
    assert_eq!(reg.focus_candidate().expect("mapped").id().as_str(), "w-1");
    reg.get_mut(&window("w-0")).expect("tracked").mark_mapped();
    assert_eq!(reg.focus_candidate().expect("mapped").id().as_str(), "w-0");
    // One that is mapped already keeps its turn.
    reg.get_mut(&window("w-1")).expect("tracked").mark_mapped();
    assert_eq!(reg.focus_candidate().expect("mapped").id().as_str(), "w-0");
    assert!(reg.remove(|handle: &u8| *handle == 0).is_some());
    assert_eq!(reg.focus_candidate().expect("mapped").id().as_str(), "w-1");
}

// The journal.

/// Takes no line.
struct FullSink;

impl LogSink for FullSink {
    fn emit(&mut self, _record: &LogRecord) -> Result<(), Error> {
        Err(Error::new(
            ErrorCode::HostRefused,
            "no room for a line",
            TraceId::unattributed(),
        ))
    }
}

#[test]
fn a_line_bears_the_time_of_the_clock_and_the_trace() {
    let mut journal = Journal::new(
        FixedClock::at_millis(7),
        CapturingLogSink::new(),
        TraceId::new(Id::new(IdScheme::Ulid, "t").expect("valid text")),
    );
    assert!(journal.info("socket bound").is_ok());
    assert!(journal.error("gone").is_ok());
    assert_eq!(
        journal.sink().lines(),
        [
            r#"{"ts":7,"level":"info","trace_id":"t","msg":"socket bound"}"#.to_owned(),
            r#"{"ts":7,"level":"error","trace_id":"t","msg":"gone"}"#.to_owned(),
        ]
    );
}

#[test]
fn a_failure_is_noted_with_its_message_alone() {
    let mut journal = Journal::new(
        FixedClock::at_millis(7),
        CapturingLogSink::new(),
        TraceId::unattributed(),
    );
    let cause = Error::new(ErrorCode::HostRefused, "no", TraceId::unattributed())
        .with_detail("k", 1_i64);
    assert!(journal.note_failure("import", &cause).is_ok());
    assert_eq!(
        journal.sink().lines(),
        [r#"{"ts":7,"level":"error","trace_id":null,"msg":"import: no"}"#.to_owned()]
    );
}

#[test]
fn the_answer_of_the_sink_is_handed_on() {
    let mut journal = Journal::new(FixedClock::at_millis(7), FullSink, TraceId::unattributed());
    let err = journal.warn("client gone").expect_err("no room");
    assert_eq!(err.code(), ErrorCode::HostRefused);
    assert_eq!(err.message(), "no room for a line");
    assert!(journal.info("again").is_err());
}

#[test]
fn the_recording_importer_counts_every_import_in_order() {
    let mut importer = RecordingImporter::new();
    let w = window("w-1");
    for n in 0..6 {
        if n % 3 == 0 {
            importer
                .import_shm(&w, shm_view(&[0u8; 32]))
                .expect("accepted");
        } else {
            importer
                .import_dmabuf(Some(&w), handoff(), &())
                .expect("accepted");
        }
        assert_eq!(importer.count(), n + 1);
        assert_eq!(importer.seen().len(), n + 1);
    }
    let kinds: Vec<&str> = importer.seen().iter().map(|(_, k)| k.as_str()).collect();
    assert_eq!(kinds, ["shm", "dmabuf", "dmabuf", "shm", "dmabuf", "dmabuf"]);
    assert_eq!(importer.dmabufs().len(), 4);
}

// The compositor's decisions.

type Core = CompositorCore<
    u32,
    GridGeometry,
    FixedClock,
    CapturingLogSink,
    SequentialIdGen,
    RecordingImporter<()>,
>;

fn plane_size() -> GridSize {
    GridSize {
        half_width: 100,
        half_height: 50,
    }
}

fn plane_pose() -> PanelPose<GridPose> {
    PanelPose::world(GridPose { x: 0, y: 0, z: 0 })
}

fn compositor() -> Core {
    let mut ids = SequentialIdGen::new(IdScheme::Uuidv7, "w");
    let journal = Journal::with_new_trace(
        FixedClock::at_millis(7),
        CapturingLogSink::new(),
        &mut ids,
    )
    .expect("trace id issued");
    CompositorCore::new(
        journal,
        ids,
        RecordingImporter::new(),
        DEFAULT_ATLAS_GUTTER_PX,
        (DEFAULT_WINDOW_WIDTH_PX, DEFAULT_WINDOW_HEIGHT_PX),
    )
}

fn with_windows(count: u32) -> Core {
    let mut core = compositor();
    for handle in 0..count {
        assert!(core.windows().room_for(core.default_window_size()));
        core.new_toplevel(handle, Ok((plane_size(), plane_pose())), "here");
    }
    core
}

fn last_line(core: &Core) -> String {
    core.journal().sink().lines().last().expect("a line").clone()
}

fn key(text: &str) -> IdempotencyKey {
    IdempotencyKey::new(Id::new(IdScheme::Ulid, text).expect("valid text"))
}

#[test]
fn a_toplevel_is_tracked_then_mapped_then_gone() {
    let mut core = with_windows(2);
    assert_eq!(core.windows().len(), 2);
    assert!(last_line(&core).contains("w-00000002"));
    assert!(core.note_commit(|h: &u32| *h == 1));
    assert!(last_line(&core).contains("window w-00000002 is now mapped"));
    assert!(!core.note_commit(|h: &u32| *h == 1));
    assert!(!core.note_commit(|h: &u32| *h == 9));
    assert_eq!(core.windows().mapped(), 1);
    core.toplevel_destroyed(|h: &u32| *h == 1);
    assert!(last_line(&core).contains("window w-00000002 is gone"));
    assert_eq!(core.windows().len(), 1);
    assert_eq!(core.windows().next_index(), 2);
}

#[test]
fn a_pointer_over_a_window_moves_in_the_atlas() {
    let mut core = with_windows(2);
    let second = core.windows().windows()[1].id().clone();
    let order = core
        .point_at_local(&second, PixelPoint { x: 10, y: 20 }, 5)
        .expect("tracked");
    assert_eq!(order.origin, Some(AtlasPoint { x: 1344, y: 0 }));
    assert_eq!(order.location, AtlasPoint { x: 1354, y: 20 });
    assert_eq!(order.time_ms, 5);
    assert_eq!(
        core.pointer_target().map(|w| w.as_str().to_owned()),
        Some("w-00000002".to_owned())
    );
    core.toplevel_destroyed(|h: &u32| *h == 1);
    assert!(core.pointer_target().is_none());
    let err = core
        .point_at_local(&second, PixelPoint { x: 0, y: 0 }, 6)
        .expect_err("gone");
    assert_eq!(err.code(), ErrorCode::InvalidArgument);
}

#[test]
fn a_hand_beyond_the_plane_leaves_the_window_unless_it_holds() {
    let mut core = with_windows(1);
    let only = core.windows().windows()[0].id().clone();
    let far = GridPose { x: 900, y: 0, z: 3 };
    let (order, delivery) = core
        .aim_at(&only, far, PointerHold::Up, 1)
        .expect("tracked");
    assert_eq!(order.origin, None);
    assert!(matches!(delivery, PointerDelivery::Left));
    assert!(core.pointer_target().is_none());
    let (order, delivery) = core
        .aim_at(&only, far, PointerHold::Down, 1)
        .expect("tracked");
    assert_eq!(order.origin, Some(AtlasPoint { x: 0, y: 0 }));
    assert!(matches!(delivery, PointerDelivery::Moved { .. }));
    assert!(core.pointer_target().is_some());
}

#[test]
fn an_event_is_delivered_once_to_where_the_pointer_is() {
    let mut core = with_windows(1);
    let motion = |k: &str| PointerEvent {
        idempotency_key: key(k),
        at: UtcTimestamp::from_millis_since_epoch(9),
        kind: PointerEventKind::MotionAbsolute { x_px: 3, y_px: 4 },
    };
    assert!(
        core.deliver_pointer(&motion("m-0")).is_err(),
        "the pointer is over nothing"
    );
    let only = core.windows().windows()[0].id().clone();
    core.point_at_local(&only, PixelPoint { x: 0, y: 0 }, 1)
        .expect("tracked");
    match core.deliver_pointer(&motion("m-1")).expect("delivered") {
        PointerOrder::Motion { window, order } => {
            assert_eq!(window.as_str(), only.as_str());
            assert_eq!(order.location, AtlasPoint { x: 3, y: 4 });
            assert_eq!(order.time_ms, 9);
        }
        _ => unreachable!("a motion"),
    }
    assert!(matches!(
        core.deliver_pointer(&motion("m-1")).expect("ignored"),
        PointerOrder::Duplicate
    ));
    let click = PointerEvent {
        idempotency_key: key("c-1"),
        at: UtcTimestamp::from_millis_since_epoch(10),
        kind: PointerEventKind::Button {
            button: PointerButton::Middle,
            state: ButtonState::Pressed,
        },
    };
    match core.deliver_pointer(&click).expect("delivered") {
        PointerOrder::Button {
            code,
            state,
            time_ms,
        } => {
            assert_eq!((code, state, time_ms), (0x112, ButtonState::Pressed, 10));
        }
        _ => unreachable!("a button"),
    }
    let press = KeyEvent {
        idempotency_key: key("k-1"),
        at: UtcTimestamp::from_millis_since_epoch(11),
        keycode: Keycode(30),
        state: ButtonState::Released,
    };
    assert_eq!(
        core.deliver_key(&press),
        KeyOrder::Press {
            xkb: 38,
            state: ButtonState::Released,
            time_ms: 11
        }
    );
    assert_eq!(core.deliver_key(&press), KeyOrder::Duplicate);
}

#[test]
fn buffers_are_handed_to_the_importer_with_their_window() {
    let mut core = with_windows(1);
    core.hand_off_shm(|h: &u32| *h == 0, shm_view(&[0u8; 32]));
    core.hand_off_dmabuf(|h: &u32| *h == 0, handoff(), &());
    assert!(core.dmabuf_imported(handoff(), &()));
    let seen = core.importer().seen();
    assert_eq!(seen.len(), 3);
    assert_eq!(seen[0].0.as_ref().map(|w| w.as_str()), Some("w-00000001"));
    assert_eq!(seen[0].1, ClientBufferKind::Shm);
    assert_eq!(seen[1].1, ClientBufferKind::Dmabuf);
    assert!(seen[2].0.is_none());
}

#[test]
fn focus_is_told_in_the_journal() {
    let mut core = with_windows(1);
    core.focus_changed(true, |h: &u32| *h == 0);
    assert!(last_line(&core).contains("keyboard focus is now on w-00000001"));
    core.focus_changed(false, |h: &u32| *h == 0);
    assert!(last_line(&core).contains("keyboard focus is now on none"));
    let only = core.windows().windows()[0].id().clone();
    assert!(core.check_keyboard_focus(Some(&only)).is_ok());
    assert!(core.check_keyboard_focus(None).is_ok());
    assert!(core.check_keyboard_focus(Some(&window("other"))).is_err());
    assert_eq!(core.no_pointer().code(), core.no_keyboard().code());
    assert_eq!(
        core.keyboard_not_made("why").code(),
        ErrorCode::CapabilityUnavailable
    );
    assert!(core.is_running());
    core.stop();
    assert!(!core.is_running());
}

// Running.

#[test]
fn a_run_ends_for_the_first_reason_there_is() {
    assert_eq!(nested_step(false, true, 9, Some(1)), NestedStep::Stopped);
    assert_eq!(nested_step(true, true, 9, Some(1)), NestedStep::Interrupted);
    assert_eq!(nested_step(true, false, 9, Some(9)), NestedStep::TimeLimit);
    assert_eq!(nested_step(true, false, 9, None), NestedStep::Proceed);
    assert_eq!(nested_step(true, false, 8, Some(9)), NestedStep::Proceed);
    assert!(NestedStep::Proceed.message().is_none());
}

#[test]
fn a_tally_counts_rounds_clients_and_the_most_windows() {
    let mut tally = RunTally::new();
    for windows in [1, 3, 2] {
        tally.note(RunEvent::RoundBegins);
        tally.note(RunEvent::RoundEnds { windows });
    }
    tally.note(RunEvent::ClientAccepted);
    assert_eq!(tally.rounds, 3);
    assert_eq!(tally.clients_accepted, 1);
    assert_eq!(tally.toplevels_seen, 3);
    let outcome = NestedOutcome::of("wayland-4", tally, 2);
    assert_eq!((outcome.frames, outcome.mapped_windows), (3, 2));
    assert!(outcome.to_line().contains("wayland-4"));
    assert!(HeadlessOutcome::of("s", tally, 1).a_client_actually_showed_a_window());
    assert!(!HeadlessOutcome::of("s", RunTally::new(), 0).a_client_actually_showed_a_window());
}

#[test]
fn a_headless_run_lasts_until_a_window_is_shown_or_its_time_is_over() {
    let mut options = HeadlessOptions::default();
    options.run_for_millis = 100;
    assert!(headless_round_begins(99, &options));
    assert!(!headless_round_begins(100, &options));
    options.stop_once_mapped = true;
    assert!(headless_run_ends(&options, 1));
    assert!(!headless_run_ends(&options, 0));
    options.stop_once_mapped = false;
    assert!(!headless_run_ends(&options, 1));
    assert_eq!(pump_turn(true, 9, 5), PumpTurn::Ready);
    assert_eq!(pump_turn(false, 5, 5), PumpTurn::TimedOut);
    assert_eq!(pump_turn(false, 4, 5), PumpTurn::Sleep);
}

#[test]
fn a_client_is_started_on_schorls_own_socket() {
    assert!(client_command(&[], "wayland-5").is_none());
    let command = client_command(
        &["foot".to_owned(), "-e".to_owned(), "true".to_owned()],
        "wayland-5",
    )
    .expect("a program");
    assert_eq!(command.program, "foot");
    assert_eq!(command.args, vec!["-e".to_owned(), "true".to_owned()]);
    assert!(command
        .set_env
        .contains(&("WAYLAND_DISPLAY".to_owned(), "wayland-5".to_owned())));
    assert_eq!(command.removed_env, "DISPLAY");
    assert!(listening_text("wayland-5").contains("wayland-5"));
    assert!(accepted_text(3).contains('3'));
}

#[test]
fn what_fails_in_a_run_is_named() {
    assert_eq!(
        RunStep::CreateDisplay.failed_with("no fd").source(),
        Some("no fd")
    );
    assert!(RunStep::Present.failed_because("lost").details().len() > 0);
    assert!(nested_client_not_started("foot", "gone").details().len() > 0);
    assert_eq!(
        headless_client_not_started("foot", "gone").source(),
        Some("gone")
    );
    assert_eq!(
        runtime_dir_missing().code(),
        ErrorCode::CapabilityUnavailable
    );
    assert_eq!(frame_time_ms(0x1_0000_0007), 8);
}

// Arguments.

fn arguments(words: &[&str]) -> Vec<String> {
    words.iter().map(|w| (*w).to_owned()).collect()
}

#[test]
fn arguments_are_read_in_any_order_and_the_client_takes_the_rest() {
    let args = parse_nested_args(&arguments(&[
        "--title", "x y", "--run-for", "12", "--scale", "1.5", "--client", "foot", "--scale",
    ]))
    .expect("understood");
    assert_eq!(args.run_for_secs, Some(12));
    assert_eq!(args.scale.as_deref(), Some("1.5"));
    assert_eq!(args.title.as_deref(), Some("x y"));
    assert_eq!(args.client, arguments(&["foot", "--scale"]));
    assert!(parse_nested_args(&[]).expect("nothing asked").client.is_empty());
}

#[test]
fn arguments_that_are_not_understood_are_refused() {
    for words in [
        &["--run-for"][..],
        &["--run-for", "x"],
        &["--scale", "wide"],
        &["--title"],
        &["--wrong"],
    ] {
        let err = parse_nested_args(&arguments(words)).expect_err("refused");
        assert_eq!(err.code(), ErrorCode::InvalidArgument, "{words:?}");
    }
    assert_eq!(bad_argument("m").message(), "m");
}

#[test]
fn numbers_are_read_as_the_standard_library_reads_them() {
    for text in [
        "", "0", "+7", "-7", "007", "18446744073709551615", "18446744073709551616", "1 ", "+", "1_0",
        "٣",
    ] {
        assert_eq!(parse_whole_number(text), text.parse::<u64>().ok(), "{text:?}");
    }
    for text in [
        "", "1", "1.", ".5", ".", "1e9", "1e", "-1.5E+3", "inf", "-Infinity", "NaN", "+nan", "1.2.3",
        " 1", "0x1", "e5", "infinit", "1e-", "--1", "+.e1", "٣",
    ] {
        assert_eq!(is_fraction_text(text), text.parse::<f32>().is_ok(), "{text:?}");
    }
}
