use schorl::capture::testing::SolidColourFrameSource;
use schorl::compositor::window::{local_pixel_of, AtlasPoint, AtlasRect, WindowId, WindowRegistry};
use schorl::display::OutputId;
use schorl::driver::{
    keycode, step_budget_exhausted, ControllerPoses, DriverConfig, PanelDriver, PanelWiring, Turn,
};
use schorl::error::{Error, ErrorCode};
use schorl::id::{Id, IdScheme, TraceId};
use schorl::input::testing::RecordingSink;
use schorl::input::{ButtonState, Keycode, PointerButton, PointerEventKind};
use schorl::panel::cursor::{resolve_cursor, to_pixels, CursorResolution, PixelPoint, PointerHold};
use schorl::panel::grab::{begin_grab, panel_pose_while_held, release_grab, ControllerId};
use schorl::panel::testing::{GridGeometry, GridPose};
use schorl::panel::{Geometry, Panel, PanelPose, PanelResolution, PoseFrame};
use schorl::scope::DisplayPurpose;
use schorl::testing::{FixedClock, SequentialIdGen};
use schorl::time::UtcTimestamp;
use schorl::xr::testing::{CountingSleeper, ScriptedSession};
use schorl::xr::{PressState, SessionState, XrEvent, XrSession};

#[derive(Debug, Clone, Copy, PartialEq)]
struct Vec3 {
    x: f32,
    y: f32,
    z: f32,
}

impl Vec3 {
    const ZERO: Vec3 = Vec3::new(0.0, 0.0, 0.0);

    const fn new(x: f32, y: f32, z: f32) -> Self {
        Self { x, y, z }
    }

    fn plus(self, other: Vec3) -> Vec3 {
        Vec3::new(self.x + other.x, self.y + other.y, self.z + other.z)
    }

    fn minus(self, other: Vec3) -> Vec3 {
        Vec3::new(self.x - other.x, self.y - other.y, self.z - other.z)
    }

    fn scale(self, k: f32) -> Vec3 {
        Vec3::new(self.x * k, self.y * k, self.z * k)
    }

    fn dot(self, other: Vec3) -> f32 {
        self.x * other.x + self.y * other.y + self.z * other.z
    }

    fn cross(self, other: Vec3) -> Vec3 {
        Vec3::new(
            self.y * other.z - self.z * other.y,
            self.z * other.x - self.x * other.z,
            self.x * other.y - self.y * other.x,
        )
    }
}

#[derive(Debug, Clone, Copy, PartialEq)]
struct Quat {
    x: f32,
    y: f32,
    z: f32,
    w: f32,
}

impl Quat {
    const IDENTITY: Quat = Quat::new(0.0, 0.0, 0.0, 1.0);

    const fn new(x: f32, y: f32, z: f32, w: f32) -> Self {
        Self { x, y, z, w }
    }

    fn from_axis_angle(axis: Vec3, radians: f32) -> Self {
        let half = radians * 0.5;
        let s = half.sin();
        Quat::new(axis.x * s, axis.y * s, axis.z * s, half.cos())
    }

    fn times(self, other: Quat) -> Quat {
        Quat::new(
            self.w * other.x + self.x * other.w + self.y * other.z - self.z * other.y,
            self.w * other.y - self.x * other.z + self.y * other.w + self.z * other.x,
            self.w * other.z + self.x * other.y - self.y * other.x + self.z * other.w,
            self.w * other.w - self.x * other.x - self.y * other.y - self.z * other.z,
        )
    }

    fn conjugate(self) -> Quat {
        Quat::new(-self.x, -self.y, -self.z, self.w)
    }

    fn rotate(self, v: Vec3) -> Vec3 {
        let q = Vec3::new(self.x, self.y, self.z);
        let t = q.cross(v).scale(2.0);
        v.plus(t.scale(self.w)).plus(q.cross(t))
    }
}

#[derive(Debug, Clone, Copy, PartialEq)]
struct Pose {
    position: Vec3,
    orientation: Quat,
}

impl Pose {
    const IDENTITY: Pose = Pose::new(Vec3::ZERO, Quat::IDENTITY);

    const fn new(position: Vec3, orientation: Quat) -> Self {
        Self {
            position,
            orientation,
        }
    }

    fn compose(self, local: Pose) -> Pose {
        Pose::new(
            self.position.plus(self.orientation.rotate(local.position)),
            self.orientation.times(local.orientation),
        )
    }

    fn inverse(self) -> Pose {
        let inv = self.orientation.conjugate();
        Pose::new(inv.rotate(self.position).scale(-1.0), inv)
    }
}

#[derive(Debug, Clone, Copy, PartialEq)]
struct PanelSize {
    width_m: f32,
    height_m: f32,
}

#[derive(Debug, Clone, Copy, PartialEq)]
struct PanelPoint {
    u_m: f32,
    v_m: f32,
}

/// Metres and rotations.
#[derive(Debug)]
struct Metres;

impl Geometry for Metres {
    type Size = PanelSize;
    type Pose = Pose;
    type Point = PanelPoint;

    fn offset_of(hand: Pose, panel: Pose) -> Pose {
        hand.inverse().compose(panel)
    }

    fn carry(hand: Pose, offset: Pose) -> Pose {
        hand.compose(offset)
    }

    fn project(panel: Pose, hand: Pose) -> PanelPoint {
        let delta = hand.position.minus(panel.position);
        PanelPoint {
            u_m: delta.dot(panel.orientation.rotate(Vec3::new(1.0, 0.0, 0.0))),
            v_m: delta.dot(panel.orientation.rotate(Vec3::new(0.0, 1.0, 0.0))),
        }
    }

    fn is_covered(size: PanelSize, point: PanelPoint) -> bool {
        point.u_m.abs() <= size.width_m * 0.5 && point.v_m.abs() <= size.height_m * 0.5
    }

    fn pixel_of(size: PanelSize, resolution: PanelResolution, point: PanelPoint) -> PixelPoint {
        let x = (point.u_m + size.width_m * 0.5) / size.width_m * resolution.width_px as f32;
        let y = (size.height_m * 0.5 - point.v_m) / size.height_m * resolution.height_px as f32;
        PixelPoint {
            x: x.floor() as i32,
            y: y.floor() as i32,
        }
    }
}

type MetrePanel = Panel<PanelSize, Pose>;

fn default_single() -> MetrePanel {
    Panel::single(
        PanelSize {
            width_m: 1.2,
            height_m: 0.675,
        },
        PanelResolution::default_resolution(),
        PanelPose::world(Pose::new(Vec3::new(0.0, 1.3, -1.5), Quat::IDENTITY)),
    )
}

fn panel() -> MetrePanel {
    default_single().with_pose(PanelPose::world(Pose::new(
        Vec3::new(0.0, 0.0, -1.0),
        Quat::IDENTITY,
    )))
}

fn hand_at(position: Vec3) -> Pose {
    Pose::new(position, Quat::IDENTITY)
}

fn project_onto_panel_plane(panel: &MetrePanel, point: Vec3) -> PanelPoint {
    resolve_cursor::<Metres>(panel, hand_at(point), PointerHold::Down)
        .point()
        .expect("followed while held")
}

fn close(a: f32, b: f32) -> bool {
    (a - b).abs() < 1e-4
}

fn close_vec(a: Vec3, b: Vec3) -> bool {
    close(a.x, b.x) && close(a.y, b.y) && close(a.z, b.z)
}

// The cursor.

#[test]
fn projection_drops_the_distance_to_the_plane() {
    let near = project_onto_panel_plane(&panel(), Vec3::new(0.3, 0.1, -1.0));
    let far = project_onto_panel_plane(&panel(), Vec3::new(0.3, 0.1, -0.5));
    assert!(close(near.u_m, 0.3) && close(near.v_m, 0.1));
    assert_eq!(near, far);
}

#[test]
fn a_point_over_the_panel_moves_the_cursor() {
    let r = resolve_cursor::<Metres>(
        &panel(),
        hand_at(Vec3::new(0.1, 0.05, -0.2)),
        PointerHold::Up,
    );
    assert!(matches!(r, CursorResolution::OnPanel(_)));
    assert!(r.moves_cursor());
}

#[test]
fn beyond_the_edge_it_keeps_following_only_while_held() {
    let outside = hand_at(Vec3::new(5.0, 0.0, -1.0));
    let held = resolve_cursor::<Metres>(&panel(), outside, PointerHold::Down);
    assert!(matches!(held, CursorResolution::BeyondEdgeWhileHeld(_)));
    assert!(held.moves_cursor());
    assert!(close(held.point().expect("point").u_m, 5.0));

    let free = resolve_cursor::<Metres>(&panel(), outside, PointerHold::Up);
    assert_eq!(free, CursorResolution::OffPanel);
    assert!(!free.moves_cursor());
}

#[test]
fn pixel_mapping_puts_the_centre_in_the_middle_and_flips_y() {
    let p = panel();
    let centre = to_pixels::<Metres>(&p, PanelPoint { u_m: 0.0, v_m: 0.0 });
    assert_eq!(centre, PixelPoint { x: 960, y: 540 });

    let top_left = to_pixels::<Metres>(
        &p,
        PanelPoint {
            u_m: -p.size().width_m * 0.5,
            v_m: p.size().height_m * 0.5,
        },
    );
    assert_eq!(top_left, PixelPoint { x: 0, y: 0 });
}

#[test]
fn pixels_outside_the_panel_stay_outside() {
    let p = panel();
    let outside = to_pixels::<Metres>(&p, PanelPoint { u_m: 5.0, v_m: 0.0 });
    assert!(
        outside.x > p.resolution().width_px as i32,
        "got {outside:?}"
    );
    let above = to_pixels::<Metres>(&p, PanelPoint { u_m: 0.0, v_m: 5.0 });
    assert!(above.y < 0, "got {above:?}");
}

#[test]
fn the_result_is_the_projection_and_not_where_a_ray_would_hit() {
    let panel = panel();
    let controller = Vec3::new(0.3, 0.2, -0.4);
    let aim = panel.pose().pose.position.minus(controller);
    let t = (panel.pose().pose.position.z - controller.z) / aim.z;
    let ray_hit = controller.plus(aim.scale(t));
    let ray_point = PanelPoint {
        u_m: ray_hit.x - panel.pose().pose.position.x,
        v_m: ray_hit.y - panel.pose().pose.position.y,
    };
    assert!(
        close(ray_point.u_m, 0.0) && close(ray_point.v_m, 0.0),
        "the ray aimed at the centre hits the centre: {ray_point:?}"
    );

    let projected = project_onto_panel_plane(&panel, controller);
    assert!(
        close(projected.u_m, 0.3) && close(projected.v_m, 0.2),
        "the projection keeps the hand's own offset: {projected:?}"
    );
    assert_ne!(
        projected, ray_point,
        "a ray-intersection implementation would pass the other assertions too"
    );
}

#[test]
fn the_projection_ignores_where_the_controller_points() {
    let panel = panel();
    let hand = Vec3::new(-0.2, 0.15, -0.3);
    let first = project_onto_panel_plane(&panel, hand);
    let turned = Pose::new(
        hand,
        Quat::from_axis_angle(Vec3::new(1.0, 0.0, 0.0), 0.9),
    );
    let second = resolve_cursor::<Metres>(&panel, turned, PointerHold::Up)
        .point()
        .expect("on the panel");
    assert_eq!(first, second);
    assert!(
        close(first.u_m, -0.2) && close(first.v_m, 0.15),
        "{first:?}"
    );
}

#[test]
fn a_rotated_panel_projects_along_its_own_axes() {
    let turned = default_single().with_pose(PanelPose::world(Pose::new(
        Vec3::ZERO,
        Quat::from_axis_angle(Vec3::new(0.0, 1.0, 0.0), std::f32::consts::FRAC_PI_2),
    )));
    let p = project_onto_panel_plane(&turned, Vec3::new(0.0, 0.0, -0.4));
    assert!(close(p.u_m, 0.4), "got {p:?}");
    assert!(close(p.v_m, 0.0));
}

// Grabbing.

fn panel_at(position: Vec3) -> PanelPose<Pose> {
    PanelPose::world(Pose::new(position, Quat::IDENTITY))
}

#[test]
fn grabbing_without_moving_leaves_the_panel_where_it_was() {
    let controller = Pose::new(Vec3::new(0.2, 1.0, -0.4), Quat::IDENTITY);
    let panel = panel_at(Vec3::new(0.0, 1.3, -1.5));
    let grab = begin_grab::<Metres>(ControllerId::Right, controller, panel);
    let held = panel_pose_while_held::<Metres>(grab, controller).expect("held");
    assert!(close_vec(held.pose.position, panel.pose.position));
}

#[test]
fn moving_the_controller_translates_the_panel_by_the_same_amount() {
    let controller = Pose::new(Vec3::new(0.0, 1.0, -0.4), Quat::IDENTITY);
    let panel = panel_at(Vec3::new(0.0, 1.3, -1.5));
    let grab = begin_grab::<Metres>(ControllerId::Right, controller, panel);

    let moved = Pose::new(Vec3::new(0.5, 1.1, -0.4), Quat::IDENTITY);
    let held = panel_pose_while_held::<Metres>(grab, moved).expect("held");
    assert!(close_vec(held.pose.position, Vec3::new(0.5, 1.4, -1.5)));
    assert_eq!(held.frame, PoseFrame::World);
}

#[test]
fn rotating_the_controller_orbits_the_panel_around_it() {
    let controller = Pose::new(Vec3::ZERO, Quat::IDENTITY);
    let panel = panel_at(Vec3::new(0.0, 0.0, -1.0));
    let grab = begin_grab::<Metres>(ControllerId::Left, controller, panel);

    let turned = Pose::new(
        Vec3::ZERO,
        Quat::from_axis_angle(Vec3::new(0.0, 1.0, 0.0), std::f32::consts::FRAC_PI_2),
    );
    let held = panel_pose_while_held::<Metres>(grab, turned).expect("held");
    assert!(
        close_vec(held.pose.position, Vec3::new(-1.0, 0.0, 0.0)),
        "got {:?}",
        held.pose.position
    );
}

#[test]
fn a_released_grab_yields_no_pose() {
    assert!(panel_pose_while_held::<Metres>(release_grab(), Pose::IDENTITY).is_none());
    assert!(!release_grab::<Pose>().is_held());
    assert_eq!(release_grab::<Pose>().controller(), None);
}

#[test]
fn a_held_grab_remembers_the_hand() {
    let grab = begin_grab::<Metres>(ControllerId::Left, Pose::IDENTITY, panel_at(Vec3::ZERO));
    assert!(grab.is_held());
    assert_eq!(grab.controller(), Some(ControllerId::Left));
}

// Panels.

#[test]
fn the_only_pose_frame_is_world() {
    assert_eq!(PoseFrame::ALL, [PoseFrame::World]);
    assert_eq!(default_single().pose().frame, PoseFrame::World);
}

#[test]
fn a_panel_is_always_one_panel_for_work() {
    let panel = default_single();
    assert_eq!(panel.count(), 1);
    assert_eq!(panel.purpose(), DisplayPurpose::Work);
}

#[test]
fn rejects_a_degenerate_resolution() {
    assert_eq!(
        PanelResolution::new(1920, 0)
            .expect_err("zero height")
            .code(),
        ErrorCode::InvalidArgument
    );
    assert!(PanelResolution::new(1920, 1080).is_ok());
}

#[test]
fn repositioning_keeps_the_world_frame() {
    let moved = default_single().with_pose(PanelPose::world(Pose::new(
        Vec3::new(1.0, 1.0, -2.0),
        Quat::IDENTITY,
    )));
    assert_eq!(moved.pose().frame, PoseFrame::World);
    assert_eq!(moved.pose().pose.position, Vec3::new(1.0, 1.0, -2.0));
}

// The driver.

type Driver = PanelDriver<
    Metres,
    FixedClock,
    SequentialIdGen,
    SolidColourFrameSource,
    RecordingSink,
    RecordingSink,
    CountingSleeper,
>;

type Session = ScriptedSession<PanelSize, Pose>;

fn test_panel() -> MetrePanel {
    Panel::single(
        PanelSize {
            width_m: 1.2,
            height_m: 0.675,
        },
        PanelResolution::new(8, 4).expect("valid resolution"),
        PanelPose::world(Pose::new(Vec3::new(0.0, 0.0, -1.0), Quat::IDENTITY)),
    )
}

fn driver() -> Driver {
    PanelDriver::new(
        PanelWiring {
            clock: FixedClock::at_millis(1_700_000_000_000),
            ids: SequentialIdGen::new(IdScheme::Ulid, "drv"),
            frames: SolidColourFrameSource::new(
                8,
                4,
                0x11,
                UtcTimestamp::from_millis_since_epoch(1),
            ),
            pointer: RecordingSink::new(),
            keyboard: RecordingSink::new(),
            sleeper: CountingSleeper::new(),
        },
        DriverConfig::default(),
        test_panel(),
        OutputId::new("SCHORL-PANEL").expect("valid name"),
    )
}

fn run<X: XrSession<PanelSize, Pose>>(driver: &mut Driver, session: &mut X) -> Result<(), Error> {
    let looped = loop {
        match driver.turn(session) {
            Ok(Turn::Again) => {}
            Ok(Turn::Stop) => break Ok(()),
            Err(e) => break Err(e),
        }
    };
    Driver::finish(looped, session)
}

#[test]
fn the_error_of_a_run_is_handed_on_with_its_cause() {
    let mut session = scripted(vec![]);
    let error = Error::new(ErrorCode::HostRefused, "no frame", TraceId::unattributed())
        .caused_by("the wire broke");
    let told = Driver::finish(Err(error), &mut session).expect_err("the run failed");
    assert_eq!(told.message(), "no frame");
    assert_eq!(told.source(), Some("the wire broke"));
    assert_eq!(session.ended, 1);
}

fn scripted(events: Vec<XrEvent<Pose>>) -> Session {
    let mut session = Session::default();
    session.scripted_events = events;
    session
}

#[test]
fn a_grabbed_panel_follows_the_hand_and_stays_where_it_is_let_go() {
    let mut driver = driver();
    let start = Pose::new(Vec3::new(0.0, 0.0, -0.4), Quat::IDENTITY);
    let mut session = scripted(vec![
        XrEvent::ControllerPose {
            controller: ControllerId::Right,
            pose: start,
        },
        XrEvent::GrabButton {
            controller: ControllerId::Right,
            state: PressState::Pressed,
        },
        XrEvent::ControllerPose {
            controller: ControllerId::Right,
            pose: Pose::new(Vec3::new(0.5, 0.2, -0.4), Quat::IDENTITY),
        },
    ]);

    driver.step(&mut session).expect("stepped");
    assert!(driver.grab().is_held());
    let moved = driver.panel().pose().pose.position;
    assert!(close(moved.x, 0.5) && close(moved.y, 0.2), "got {moved:?}");
    assert!(close(moved.z, -1.0), "depth follows the hand: {moved:?}");

    session.scripted_events = vec![
        XrEvent::GrabButton {
            controller: ControllerId::Right,
            state: PressState::Released,
        },
        XrEvent::ControllerPose {
            controller: ControllerId::Right,
            pose: Pose::new(Vec3::new(9.0, 9.0, 9.0), Quat::IDENTITY),
        },
    ];
    driver.step(&mut session).expect("stepped");
    assert!(!driver.grab().is_held());
    assert_eq!(
        driver.panel().pose().pose.position,
        moved,
        "the panel is left in the world, not carried by the hand"
    );
}

#[test]
fn the_other_hand_releasing_does_not_drop_the_panel() {
    let mut driver = driver();
    let mut session = scripted(vec![
        XrEvent::ControllerPose {
            controller: ControllerId::Left,
            pose: Pose::new(Vec3::new(-0.2, 0.0, -0.4), Quat::IDENTITY),
        },
        XrEvent::GrabButton {
            controller: ControllerId::Left,
            state: PressState::Pressed,
        },
        XrEvent::GrabButton {
            controller: ControllerId::Right,
            state: PressState::Released,
        },
    ]);
    driver.step(&mut session).expect("stepped");
    assert_eq!(driver.grab().controller(), Some(ControllerId::Left));
}

#[test]
fn the_cursor_is_the_projection_of_the_hand_onto_the_panel_plane() {
    let mut driver = driver();
    let mut session = scripted(vec![XrEvent::ControllerPose {
        controller: ControllerId::Right,
        pose: Pose::new(Vec3::new(0.3, 0.1, -0.4), Quat::IDENTITY),
    }]);
    let outcome = driver.step(&mut session).expect("stepped");
    let point = outcome
        .cursor
        .expect("a hand was seen")
        .point()
        .expect("on the panel");
    assert!(close(point.u_m, 0.3) && close(point.v_m, 0.1), "{point:?}");

    session.scripted_events = vec![XrEvent::ControllerPose {
        controller: ControllerId::Right,
        pose: Pose::new(Vec3::new(0.3, 0.1, -0.9), Quat::IDENTITY),
    }];
    let outcome = driver.step(&mut session).expect("stepped");
    let same = outcome
        .cursor
        .expect("a hand was seen")
        .point()
        .expect("on the panel");
    assert_eq!(point, same);
}

#[test]
fn the_cursor_keeps_following_past_the_edge_only_while_held() {
    let mut driver = driver();
    let far = Pose::new(Vec3::new(4.0, 0.0, -0.4), Quat::IDENTITY);
    let mut session = scripted(vec![
        XrEvent::ControllerPose {
            controller: ControllerId::Right,
            pose: far,
        },
        XrEvent::PointerButton {
            controller: ControllerId::Right,
            state: PressState::Pressed,
        },
    ]);
    let outcome = driver.step(&mut session).expect("stepped");
    assert_eq!(driver.hold(), PointerHold::Down);
    assert!(matches!(
        outcome.cursor,
        Some(CursorResolution::BeyondEdgeWhileHeld(_))
    ));
    assert_eq!(outcome.pointer_deliveries, 2);

    session.scripted_events = vec![XrEvent::PointerButton {
        controller: ControllerId::Right,
        state: PressState::Released,
    }];
    let outcome = driver.step(&mut session).expect("stepped");
    assert_eq!(driver.hold(), PointerHold::Up);
    assert_eq!(outcome.cursor, Some(CursorResolution::OffPanel));
    assert_eq!(outcome.pointer_deliveries, 1);
}

#[test]
fn a_click_and_a_key_reach_the_linux_side() {
    let mut driver = driver();
    let mut session = scripted(vec![
        XrEvent::PointerButton {
            controller: ControllerId::Right,
            state: PressState::Pressed,
        },
        XrEvent::Key {
            keycode: keycode(30),
            state: PressState::Pressed,
        },
        XrEvent::Key {
            keycode: keycode(30),
            state: PressState::Released,
        },
    ]);
    let outcome = driver.step(&mut session).expect("stepped");
    assert_eq!(outcome.pointer_deliveries, 1, "no hand seen, so no motion");
    assert_eq!(outcome.key_deliveries, 2);

    let events = driver.wiring().pointer.pointer_events();
    assert_eq!(events.len(), 1);
    match events[0].kind {
        PointerEventKind::Button { button, state } => {
            assert_eq!(button, PointerButton::Left);
            assert_eq!(state, ButtonState::Pressed);
        }
        PointerEventKind::MotionAbsolute { .. } => unreachable!("delivered as a button"),
    }
    let keys = driver.wiring().keyboard.key_events();
    assert_eq!(keys.len(), 2);
    assert_eq!(keys[0].keycode, Keycode(30));
    assert_eq!(keys[0].state, ButtonState::Pressed);
    assert_eq!(keys[1].state, ButtonState::Released);
    assert_eq!(
        keys[0].at,
        UtcTimestamp::from_millis_since_epoch(1_700_000_000_000),
        "the clock is the injected UTC one"
    );
    assert_ne!(
        keys[0].idempotency_key.as_str(),
        keys[1].idempotency_key.as_str(),
        "every outward write carries its own key"
    );
}

#[test]
fn the_motion_delivered_carries_the_panel_pixels() {
    let mut driver = driver();
    let mut session = scripted(vec![XrEvent::ControllerPose {
        controller: ControllerId::Right,
        pose: Pose::new(Vec3::new(0.0, 0.0, -0.4), Quat::IDENTITY),
    }]);
    driver.step(&mut session).expect("stepped");
    let events = driver.wiring().pointer.pointer_events();
    assert_eq!(events.len(), 1);
    match events[0].kind {
        PointerEventKind::MotionAbsolute { x_px, y_px } => {
            assert_eq!((x_px, y_px), (4, 2));
        }
        PointerEventKind::Button { .. } => unreachable!("delivered as motion"),
    }
}

#[test]
fn a_presenting_session_gets_a_black_backed_plan_and_the_captured_frame() {
    let mut session = Session::default();
    let mut driver = driver();
    let outcome = driver.step(&mut session).expect("stepped");
    let plan = outcome.plan.expect("a presenting session gets a plan");
    assert!(plan.background_is_opaque_black());
    assert_eq!(plan.panel_layer_count(), 1);
    assert_eq!(session.submitted_frames, 1);
}

#[test]
fn a_headless_session_is_driven_without_pasting_anything() {
    let mut session = Session::default();
    session.presents = false;
    let mut driver = driver();
    let outcome = driver.step(&mut session).expect("stepped");
    assert!(outcome.plan.is_none());
    assert_eq!(session.submitted_frames, 0);
}

#[test]
fn running_stops_on_the_stopping_state_and_always_ends_the_session() {
    let mut session = scripted(vec![
        XrEvent::StateChanged(SessionState::Running),
        XrEvent::StateChanged(SessionState::Stopping),
    ]);
    session.presents = false;
    let mut driver = driver();
    run(&mut driver, &mut session).expect("ran to a stop");
    assert_eq!(driver.state(), SessionState::Stopping);
    assert_eq!(session.ended, 1);
    assert!(
        driver.wiring().sleeper.requested().is_empty(),
        "it stopped on the first step, so it never slept"
    );
}

#[test]
fn running_sleeps_between_steps_instead_of_spinning() {
    let mut session = Session::default();
    session.presents = false;
    session.stop_after_polls = Some(3);
    let mut driver = driver();
    run(&mut driver, &mut session).expect("ran to a stop");
    assert_eq!(
        driver.wiring().sleeper.requested(),
        [16, 16],
        "it slept between the steps that did not stop"
    );
    assert_eq!(session.ended, 1);
}

#[test]
fn a_failing_step_still_ends_the_session() {
    let mut session = Session::default();
    session.presents = false;
    session.poll_error = true;
    let mut driver = driver();
    let err = run(&mut driver, &mut session).expect_err("polling fails");
    assert_eq!(err.code(), ErrorCode::Internal);
    assert_eq!(session.ended, 1, "the release path runs on failure too");
}

#[test]
fn a_click_from_the_other_hand_is_not_delivered() {
    let mut driver = driver();
    let mut session = scripted(vec![XrEvent::PointerButton {
        controller: ControllerId::Left,
        state: PressState::Pressed,
    }]);
    let outcome = driver.step(&mut session).expect("stepped");
    assert_eq!(outcome.pointer_deliveries, 0);
    assert_eq!(
        driver.hold(),
        PointerHold::Up,
        "the other hand does not start a drag"
    );
    assert!(driver.wiring().pointer.pointer_events().is_empty());
}

#[test]
fn a_bounded_run_stops_on_the_stopping_state() {
    let mut session = Session::default();
    session.presents = false;
    session.stop_after_polls = Some(2);
    let mut driver = driver();
    assert_eq!(
        driver
            .run_for_at_most(&mut session, 10)
            .expect("stops within the budget"),
        2
    );
    assert_eq!(session.ended, 1);
}

#[test]
fn a_bounded_run_refuses_a_session_that_never_stops() {
    let mut session = Session::default();
    session.presents = false;
    let mut driver = driver();
    let err = driver
        .run_for_at_most(&mut session, 3)
        .expect_err("it never stops");
    assert_eq!(err.code(), ErrorCode::Internal);
    assert_eq!(session.ended, 1, "the release path runs on the budget path");
    assert_eq!(driver.wiring().sleeper.requested(), [16, 16, 16]);
}

#[test]
fn the_step_budget_envelope_reports_the_count() {
    let err = step_budget_exhausted(42);
    assert_eq!(err.code(), ErrorCode::Internal);
}

#[test]
fn poses_of_the_two_hands_are_kept_apart() {
    let mut poses: ControllerPoses<Pose> = ControllerPoses::new();
    assert!(poses.get(ControllerId::Left).is_none());
    poses.set(ControllerId::Left, hand_at(Vec3::ZERO));
    assert!(poses.get(ControllerId::Left).is_some());
    assert!(poses.get(ControllerId::Right).is_none());
}

#[test]
fn a_session_is_asked_for_on_black_and_with_the_panel() {
    let driver = driver();
    let config = driver.session_config();
    assert_eq!(config.panel.resolution(), test_panel().resolution());
    assert!(driver.cursor().is_none(), "no hand was seen");
}

// Windows on their planes.

fn id(text: &str) -> WindowId {
    WindowId::new(Id::new(IdScheme::Uuidv7, text).expect("non empty"))
}

type Registry = WindowRegistry<String, PanelSize, Pose>;

fn registry() -> Registry {
    WindowRegistry::new(64)
}

/// On a level ring, thirty degrees further for every window.
fn place(reg: &mut Registry, name: &str, size_px: (i32, i32)) {
    assert!(reg.room_for(size_px));
    let yaw = std::f32::consts::FRAC_PI_6 * reg.next_index() as f32;
    let pose = Pose::new(
        Vec3::new(1.5 * yaw.sin(), 1.3, -1.5 * yaw.cos()),
        Quat::from_axis_angle(Vec3::new(0.0, 1.0, 0.0), yaw),
    );
    let size = PanelSize {
        width_m: size_px.0 as f32 / 1600.0,
        height_m: size_px.1 as f32 / 1600.0,
    };
    reg.insert(
        id(name),
        name.to_owned(),
        size_px,
        size,
        PanelPose::world(pose),
    )
    .expect("placed");
}

#[test]
fn the_registry_has_no_upper_bound_on_windows() {
    let mut reg = registry();
    for n in 0..17 {
        place(&mut reg, &format!("w{n}"), (1280, 720));
    }
    assert_eq!(reg.len(), 17);
}

#[test]
fn atlas_rectangles_never_overlap() {
    let mut reg = registry();
    for n in 0..8 {
        place(&mut reg, &format!("w{n}"), (1280, 720));
    }
    let rects: Vec<AtlasRect> = reg.windows().iter().map(|w| w.rect()).collect();
    for (i, a) in rects.iter().enumerate() {
        for b in &rects[i + 1..] {
            assert!(!a.overlaps(b), "{a:?} overlaps {b:?}");
        }
    }
}

#[test]
fn a_point_inside_a_rectangle_finds_exactly_that_window() {
    let mut reg = registry();
    place(&mut reg, "a", (100, 100));
    place(&mut reg, "b", (100, 100));

    let b_rect = reg.get(&id("b")).expect("present").rect();
    let inside = AtlasPoint {
        x: i64::from(b_rect.x) + 3,
        y: i64::from(b_rect.y) + 3,
    };
    assert_eq!(
        reg.window_at(inside).map(|w| w.handle().as_str()),
        Some("b")
    );
    let gutter = AtlasPoint {
        x: i64::from(b_rect.x) - 1,
        y: 3,
    };
    assert_eq!(reg.window_at(gutter).map(|w| w.handle().as_str()), None);
    let (window, local) = reg.hit(inside).expect("hit");
    assert_eq!(window.as_str(), "b");
    assert_eq!(local, PixelPoint { x: 3, y: 3 });
}

#[test]
fn the_atlas_point_of_the_plane_centre_is_the_middle_of_the_window() {
    let mut reg = registry();
    place(&mut reg, "a", (1280, 720));
    let w = reg.get(&id("a")).expect("present");
    let centre = w.atlas_point::<Metres>(PanelPoint { u_m: 0.0, v_m: 0.0 });
    assert_eq!(
        local_pixel_of(w.rect(), centre),
        PixelPoint { x: 640, y: 360 }
    );
}

#[test]
fn a_point_beyond_the_plane_edge_still_maps_to_a_coordinate() {
    let mut reg = registry();
    place(&mut reg, "a", (1280, 720));
    let w = reg.get(&id("a")).expect("present");
    let outside = w.atlas_point::<Metres>(PanelPoint { u_m: 0.5, v_m: 0.0 });
    let local = local_pixel_of(w.rect(), outside);
    assert!(local.x > 1280, "{local:?} should be past the right edge");
}

#[test]
fn the_first_window_stands_straight_ahead() {
    let mut reg = registry();
    place(&mut reg, "a", (1280, 720));
    let pose = reg.get(&id("a")).expect("present").plane().pose().pose;
    assert!((pose.position.x - 0.0).abs() < 1e-6);
    assert!((pose.position.z + 1.5).abs() < 1e-6);
}

#[test]
fn the_second_window_is_turned_away_from_the_first() {
    let mut reg = registry();
    place(&mut reg, "a", (1280, 720));
    place(&mut reg, "b", (1280, 720));
    let position =
        |name: &str| reg.get(&id(name)).expect("present").plane().pose().pose.position;
    let a = position("a");
    let b = position("b");
    assert!(b.x > a.x, "the ring turns: {a:?} -> {b:?}");
}

#[test]
fn removing_a_window_does_not_reuse_its_place() {
    let mut reg = registry();
    place(&mut reg, "a", (100, 100));
    let first = reg.get(&id("a")).expect("present").rect();
    reg.remove(|h: &String| h == "a").expect("removed");
    place(&mut reg, "b", (100, 100));
    let second = reg.get(&id("b")).expect("present").rect();
    assert_ne!(first, second);
}

#[test]
fn focus_goes_to_the_most_recently_mapped_window() {
    let mut reg = registry();
    place(&mut reg, "a", (100, 100));
    place(&mut reg, "b", (100, 100));
    assert!(reg.focus_candidate().is_none(), "nothing is mapped yet");
    reg.get_mut(&id("a")).expect("present").mark_mapped();
    assert_eq!(
        reg.focus_candidate().map(|w| w.handle().as_str()),
        Some("a")
    );
    reg.get_mut(&id("b")).expect("present").mark_mapped();
    assert_eq!(
        reg.focus_candidate().map(|w| w.handle().as_str()),
        Some("b")
    );
    assert_eq!(reg.mapped(), 2);
}

#[test]
fn a_window_without_extent_is_refused() {
    let mut reg = registry();
    assert!(reg.room_for((-1, 5)));
    let err = reg
        .insert(
            id("a"),
            "a".to_owned(),
            (-1, 5),
            PanelSize {
                width_m: 1.0,
                height_m: 1.0,
            },
            panel_at(Vec3::ZERO),
        )
        .expect_err("no extent");
    assert_eq!(err.code(), ErrorCode::InvalidArgument);
    assert!(reg.is_empty());
    assert_eq!(reg.next_index(), 0);
}

#[test]
fn a_window_that_was_moved_keeps_its_rectangle() {
    let mut reg = registry();
    place(&mut reg, "a", (100, 100));
    let before = reg.get(&id("a")).expect("present").rect();
    reg.get_mut(&id("a"))
        .expect("present")
        .set_plane_pose(panel_at(Vec3::new(7.0, 0.0, 0.0)));
    let w = reg.get(&id("a")).expect("present");
    assert_eq!(w.rect(), before);
    assert_eq!(w.plane().pose().pose.position.x, 7.0);
}

#[test]
fn a_gone_window_leaves_the_others_where_they_are() {
    let mut reg = registry();
    for name in ["a", "b", "c"] {
        place(&mut reg, name, (100, 100));
    }
    let before: Vec<AtlasRect> = reg.windows().iter().map(|w| w.rect()).collect();
    reg.remove(|h: &String| h == "b").expect("removed");
    let after: Vec<AtlasRect> = reg.windows().iter().map(|w| w.rect()).collect();
    assert_eq!(after, vec![before[0], before[2]]);
    assert!(reg.get(&id("b")).is_none());
}

#[test]
fn a_carried_panel_keeps_its_size_and_resolution() {
    let mut driver = driver();
    let mut session = scripted(vec![
        XrEvent::ControllerPose {
            controller: ControllerId::Right,
            pose: hand_at(Vec3::new(0.0, 0.0, -0.4)),
        },
        XrEvent::GrabButton {
            controller: ControllerId::Right,
            state: PressState::Pressed,
        },
        XrEvent::ControllerPose {
            controller: ControllerId::Right,
            pose: hand_at(Vec3::new(1.0, 2.0, 3.0)),
        },
    ]);
    driver.step(&mut session).expect("stepped");
    assert_eq!(driver.panel().size(), test_panel().size());
    assert_eq!(driver.panel().resolution(), test_panel().resolution());
}

#[test]
fn on_a_grid_a_grab_without_moving_changes_nothing() {
    let hand = GridPose {
        x: i16::MIN,
        y: 5,
        z: -7,
    };
    let panel = PanelPose::world(GridPose {
        x: i16::MAX,
        y: 0,
        z: 9,
    });
    let grab = begin_grab::<GridGeometry>(ControllerId::Left, hand, panel);
    let held = panel_pose_while_held::<GridGeometry>(grab, hand).expect("held");
    assert_eq!(held.pose, panel.pose);
}
