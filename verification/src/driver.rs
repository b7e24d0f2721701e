//! Drives the panel: takes what the hands did, moves the panel and the cursor,
//! hands clicks and keys to the Linux display, and shows its frames.

use vstd::prelude::*;

use crate::capture::{CaptureView, FrameSource};
use crate::display::OutputId;
use crate::error::{done_view, plain_error, DetailView, Error, ErrorCode, ErrorView};
use crate::id::{drawn_view, IdGen, IdView, IdempotencyKey, TraceId};
use crate::input::{
    delivery_view, ButtonState, Delivery, KeyDeliveryView, KeyEvent, KeyEventView, KeyboardSink,
    Keycode, PointerButton, PointerDeliveryView, PointerEvent, PointerEventKind, PointerEventView,
    PointerSink,
};
use crate::panel::cursor::{
    cursor_at, resolve_cursor, to_pixels, CursorResolution, PointerHold,
};
use crate::panel::grab::{begin_grab, panel_pose_while_held, release_grab, ControllerId, GrabState};
use crate::panel::{Geometry, Panel, PanelPose, PanelView, PoseFrame};
use crate::scope::Background;
use crate::time::{Clock, UtcTimestamp};
use crate::xr::{
    poll_view, CompositionPlan, PressState, SessionCall, SessionConfig, SessionState,
    Sleeper, XrEvent, XrSession,
};

pub mod laws;

verus! {

/// The last pose seen of each hand.
#[derive(Debug, Clone, Copy, PartialEq)]
pub struct ControllerPoses<P> {
    pub left: Option<P>,
    pub right: Option<P>,
}

impl<P: Copy> ControllerPoses<P> {
    /// The last pose seen of a hand.
    pub open spec fn of(self, controller: ControllerId) -> Option<P> {
        match controller {
            ControllerId::Left => self.left,
            ControllerId::Right => self.right,
        }
    }

    /// The same, with another pose of one hand.
    pub open spec fn seen(self, controller: ControllerId, pose: P) -> Self {
        match controller {
            ControllerId::Left => ControllerPoses { left: Some(pose), ..self },
            ControllerId::Right => ControllerPoses { right: Some(pose), ..self },
        }
    }

    /// No hand seen yet.
    pub fn new() -> (r: Self)
        ensures
            r == (ControllerPoses::<P> { left: None, right: None }),
    {
        ControllerPoses { left: None, right: None }
    }

    /// Takes note of the pose of a hand.
    pub fn set(&mut self, controller: ControllerId, pose: P)
        ensures
            *final(self) == old(self).seen(controller, pose),
    {
        match controller {
            ControllerId::Left => {
                self.left = Some(pose);
            },
            ControllerId::Right => {
                self.right = Some(pose);
            },
        }
    }

    /// The last pose seen of a hand.
    pub fn get(&self, controller: ControllerId) -> (r: Option<P>)
        ensures
            r == self.of(controller),
    {
        match controller {
            ControllerId::Left => self.left,
            ControllerId::Right => self.right,
        }
    }
}

/// How the panel is driven.
#[derive(Debug, Clone, Copy, PartialEq, Eq, Structural)]
pub struct DriverConfig {
    /// The hand that points.
    pub pointer_controller: ControllerId,
    /// The button that its trigger presses.
    pub click_button: PointerButton,
    /// The wait between two steps.
    pub step_interval_millis: u64,
}

impl Default for DriverConfig {
    fn default() -> (r: Self)
        ensures
            r == (DriverConfig {
                pointer_controller: ControllerId::Right,
                click_button: PointerButton::Left,
                step_interval_millis: 16,
            }),
    {
        DriverConfig {
            pointer_controller: ControllerId::Right,
            click_button: PointerButton::Left,
            step_interval_millis: 16,
        }
    }
}

/// What the driver works with.
#[derive(Debug)]
pub struct PanelWiring<C, I, F, Q, K, Z> {
    pub clock: C,
    pub ids: I,
    pub frames: F,
    pub pointer: Q,
    pub keyboard: K,
    pub sleeper: Z,
}

/// What a step did.
#[derive(Debug, Clone, Copy, PartialEq)]
pub struct StepOutcome<T> {
    pub applied_events: usize,
    pub cursor: Option<CursorResolution<T>>,
    pub pointer_deliveries: usize,
    pub key_deliveries: usize,
    pub plan: Option<CompositionPlan>,
    pub state: SessionState,
    pub stopping: bool,
}

/// What the driver remembers from one step to the next.
pub struct DriverState<S, P> {
    pub panel: PanelView<S, P>,
    pub grab: GrabState<P>,
    pub hold: PointerHold,
    pub poses: ControllerPoses<P>,
    pub state: SessionState,
}

/// What is handed to the Linux display.
pub enum Emission {
    Pointer(PointerEventKind),
    Key { keycode: Keycode, state: ButtonState },
}

/// Something that was to be handed over: the identifier drawn for it, the time,
/// and what became of it. Nothing is handed over without an identifier.
pub struct Emitted {
    pub what: Emission,
    pub id: Result<IdView, ErrorView>,
    pub at: UtcTimestamp,
    pub delivered: Result<Delivery, ErrorView>,
}

impl Emitted {
    /// Whether it was handed over and taken without an error.
    pub open spec fn succeeded(self) -> bool {
        self.id is Ok && self.delivered is Ok
    }

    /// The error, where there is one.
    pub open spec fn error(self) -> ErrorView {
        match self.id {
            Err(e) => e,
            Ok(_) => self.delivered->Err_0,
        }
    }
}

/// What the driver remembers after an event.
pub open spec fn after_event<G: Geometry>(
    config: DriverConfig,
    st: DriverState<G::Size, G::Pose>,
    event: XrEvent<G::Pose>,
) -> DriverState<G::Size, G::Pose> {
    match event {
        XrEvent::StateChanged(state) => DriverState { state, ..st },
        XrEvent::ControllerPose { controller, pose } => {
            let poses = st.poses.seen(controller, pose);
            match st.grab {
                GrabState::Held { controller: holder, offset } => if holder == controller {
                    DriverState {
                        poses,
                        panel: PanelView {
                            pose: PanelPose {
                                frame: PoseFrame::World,
                                pose: G::carried(pose, offset),
                            },
                            ..st.panel
                        },
                        ..st
                    }
                } else {
                    DriverState { poses, ..st }
                },
                GrabState::Released => DriverState { poses, ..st },
            }
        },
        XrEvent::GrabButton { controller, state } => match state {
            PressState::Pressed => match st.poses.of(controller) {
                Some(hand) => DriverState {
                    grab: GrabState::Held {
                        controller,
                        offset: G::offset(hand, st.panel.pose.pose),
                    },
                    ..st
                },
                None => st,
            },
            PressState::Released => if st.grab.holder() == Some(controller) {
                DriverState { grab: GrabState::Released, ..st }
            } else {
                st
            },
        },
        XrEvent::PointerButton { controller, state } => if controller
            == config.pointer_controller {
            DriverState {
                hold: match state {
                    PressState::Pressed => PointerHold::Down,
                    PressState::Released => PointerHold::Up,
                },
                ..st
            }
        } else {
            st
        },
        XrEvent::Key { .. } => st,
    }
}

/// What the driver remembers after a row of events.
pub open spec fn after_events<G: Geometry>(
    config: DriverConfig,
    st: DriverState<G::Size, G::Pose>,
    events: Seq<XrEvent<G::Pose>>,
) -> DriverState<G::Size, G::Pose>
    decreases events.len(),
{
    if events.len() == 0 {
        st
    } else {
        after_event::<G>(config, after_events::<G>(config, st, events.drop_last()), events.last())
    }
}

/// What an event hands to the Linux display: a click of the pointing hand, or a
/// key.
pub open spec fn emission_of<P>(config: DriverConfig, event: XrEvent<P>) -> Option<Emission> {
    match event {
        XrEvent::PointerButton { controller, state } => if controller
            == config.pointer_controller {
            Some(
                Emission::Pointer(
                    PointerEventKind::Button {
                        button: config.click_button,
                        state: state.as_input(),
                    },
                ),
            )
        } else {
            None
        },
        XrEvent::Key { keycode, state } => Some(
            Emission::Key { keycode, state: state.as_input() },
        ),
        _ => None,
    }
}

/// What a row of events hands to the Linux display, in order.
pub open spec fn emissions<P>(config: DriverConfig, events: Seq<XrEvent<P>>) -> Seq<Emission>
    decreases events.len(),
{
    if events.len() == 0 {
        Seq::empty()
    } else {
        let earlier = emissions(config, events.drop_last());
        match emission_of(config, events.last()) {
            Some(e) => earlier.push(e),
            None => earlier,
        }
    }
}

/// Where the cursor is: nowhere known until the pointing hand was seen.
pub open spec fn cursor_of<G: Geometry>(
    config: DriverConfig,
    st: DriverState<G::Size, G::Pose>,
) -> Option<CursorResolution<G::Point>> {
    match st.poses.of(config.pointer_controller) {
        Some(hand) => Some(cursor_at::<G>(st.panel.size, st.panel.pose.pose, hand, st.hold)),
        None => None,
    }
}

/// The motion that a step ends with: to the pixel of the cursor, where it is
/// anywhere.
pub open spec fn motion_of<G: Geometry>(
    config: DriverConfig,
    st: DriverState<G::Size, G::Pose>,
) -> Seq<Emission> {
    match cursor_of::<G>(config, st) {
        Some(cursor) => match cursor.at() {
            Some(point) => {
                let px = G::pixel(st.panel.size, st.panel.resolution, point);
                seq![
                    Emission::Pointer(
                        PointerEventKind::MotionAbsolute { x_px: px.x, y_px: px.y },
                    ),
                ]
            },
            None => Seq::empty(),
        },
        None => Seq::empty(),
    }
}

/// What was to be handed over.
pub open spec fn whats(log: Seq<Emitted>) -> Seq<Emission> {
    Seq::new(log.len(), |i: int| log[i].what)
}

/// Whether everything that was handed over bears a time that the clock may have said.
pub open spec fn timed<C: Clock>(clock: C, log: Seq<Emitted>) -> bool {
    forall|i: int| 0 <= i < log.len() && log[i].id is Ok ==> clock.may_say((#[trigger] log[i]).at)
}

/// What was drawn for it.
pub open spec fn drawn_part(log: Seq<Emitted>) -> Seq<Result<IdView, ErrorView>> {
    Seq::new(log.len(), |i: int| log[i].id)
}

/// What of it reached the pointer sink.
pub open spec fn pointer_part(log: Seq<Emitted>) -> Seq<PointerDeliveryView>
    decreases log.len(),
{
    if log.len() == 0 {
        Seq::empty()
    } else {
        let earlier = pointer_part(log.drop_last());
        let last = log.last();
        match (last.what, last.id) {
            (Emission::Pointer(kind), Ok(id)) => earlier.push(
                PointerDeliveryView {
                    event: PointerEventView { idempotency_key: id, at: last.at, kind },
                    outcome: last.delivered,
                },
            ),
            _ => earlier,
        }
    }
}

/// What of it reached the keyboard sink.
pub open spec fn key_part(log: Seq<Emitted>) -> Seq<KeyDeliveryView>
    decreases log.len(),
{
    if log.len() == 0 {
        Seq::empty()
    } else {
        let earlier = key_part(log.drop_last());
        let last = log.last();
        match (last.what, last.id) {
            (Emission::Key { keycode, state }, Ok(id)) => earlier.push(
                KeyDeliveryView {
                    event: KeyEventView { idempotency_key: id, at: last.at, keycode, state },
                    outcome: last.delivered,
                },
            ),
            _ => earlier,
        }
    }
}

/// How many pointer events were taken as new.
pub open spec fn pointer_count(log: Seq<Emitted>) -> nat
    decreases log.len(),
{
    if log.len() == 0 {
        0
    } else {
        pointer_count(log.drop_last()) + if log.last().what is Pointer && log.last().succeeded()
            && log.last().delivered->Ok_0 == Delivery::Delivered {
            1nat
        } else {
            0nat
        }
    }
}

/// How many key events were taken as new.
pub open spec fn key_count(log: Seq<Emitted>) -> nat
    decreases log.len(),
{
    if log.len() == 0 {
        0
    } else {
        key_count(log.drop_last()) + if log.last().what is Key && log.last().succeeded()
            && log.last().delivered->Ok_0 == Delivery::Delivered {
            1nat
        } else {
            0nat
        }
    }
}

/// A count as far as it can be written down.
pub open spec fn capped(count: nat) -> usize {
    if count <= usize::MAX {
        count as usize
    } else {
        usize::MAX
    }
}

/// Whether every entry succeeded.
pub open spec fn all_succeeded(log: Seq<Emitted>) -> bool {
    forall|i: int| 0 <= i < log.len() ==> (#[trigger] log[i]).succeeded()
}

/// Whether the session said that it stops.
pub open spec fn says_stop<P>(events: Seq<XrEvent<P>>) -> bool {
    exists|i: int|
        0 <= i < events.len() && #[trigger] events[i] == XrEvent::<P>::StateChanged(
            SessionState::Stopping,
        )
}

/// Whether the log ends with what the `n`-th event hands over.
pub open spec fn failed_at_event<P>(
    config: DriverConfig,
    events: Seq<XrEvent<P>>,
    n: int,
    log: Seq<Emitted>,
) -> bool {
    &&& 0 < n <= events.len()
    &&& emission_of(config, events[n - 1]) is Some
    &&& whats(log) == emissions(config, events.take(n))
}

/// All that a step does.
pub struct StepEffect<S, P, T> {
    pub before: DriverState<S, P>,
    pub after: DriverState<S, P>,
    pub log: Seq<Emitted>,
    pub asked: Seq<SessionCall<S, P>>,
    pub captured: Seq<CaptureView>,
    pub outcome: Result<StepOutcome<T>, ErrorView>,
}

/// What a step does. The events are polled and applied in order, clicks and keys
/// are handed over as they come, then the motion of the cursor, then a frame is
/// captured and shown where the session shows frames. The first error ends the
/// step.
#[verifier::opaque]
pub open spec fn step_run<G: Geometry>(
    config: DriverConfig,
    output: Seq<char>,
    presents: bool,
    eff: StepEffect<G::Size, G::Pose, G::Point>,
) -> bool {
    &&& eff.asked.len() >= 1
    &&& eff.asked[0] is Polled
    &&& match eff.asked[0]->Polled_0 {
        Err(e) => {
            &&& eff.after == eff.before
            &&& eff.log.len() == 0
            &&& eff.asked.len() == 1
            &&& eff.captured.len() == 0
            &&& eff.outcome == Err::<StepOutcome<G::Point>, ErrorView>(e)
        },
        Ok(events) => {
            let full = after_events::<G>(config, eff.before, events);
            let all = emissions(config, events) + motion_of::<G>(config, full);
            if all_succeeded(eff.log) {
                &&& whats(eff.log) == all
                &&& eff.after == full
                &&& shown::<G>(config, output, presents, events, eff)
            } else {
                &&& eff.log.len() > 0
                &&& all_succeeded(eff.log.drop_last())
                &&& eff.outcome == Err::<StepOutcome<G::Point>, ErrorView>(eff.log.last().error())
                &&& eff.asked.len() == 1
                &&& eff.captured.len() == 0
                &&& exists|n: int|
                    #![trigger events.take(n)]
                    {
                        &&& 0 <= n <= events.len()
                        &&& eff.after == after_events::<G>(config, eff.before, events.take(n))
                        &&& failed_at_event(config, events, n, eff.log) || (n == events.len()
                            && whats(eff.log) == all && motion_of::<G>(config, full).len() > 0)
                    }
            }
        },
    }
}

/// The end of a step in which everything was handed over.
pub open spec fn shown<G: Geometry>(
    config: DriverConfig,
    output: Seq<char>,
    presents: bool,
    events: Seq<XrEvent<G::Pose>>,
    eff: StepEffect<G::Size, G::Pose, G::Point>,
) -> bool {
    let done = StepOutcome {
        applied_events: events.len() as usize,
        cursor: cursor_of::<G>(config, eff.after),
        pointer_deliveries: capped(pointer_count(eff.log)),
        key_deliveries: capped(key_count(eff.log)),
        plan: None,
        state: eff.after.state,
        stopping: says_stop(events),
    };
    if presents {
        &&& eff.captured.len() == 1
        &&& eff.captured[0].output == output
        &&& match eff.captured[0].outcome {
            Err(e) => eff.asked.len() == 1 && eff.outcome == Err::<
                StepOutcome<G::Point>,
                ErrorView,
            >(e),
            Ok(frame) => {
                &&& eff.asked.len() == 2
                &&& eff.asked[1] is Submitted
                &&& eff.asked[1]->frame == frame
                &&& eff.asked[1]->panel == eff.after.panel
                &&& match eff.asked[1]->outcome {
                    Err(e) => eff.outcome == Err::<StepOutcome<G::Point>, ErrorView>(e),
                    Ok(_) => eff.outcome == Ok::<StepOutcome<G::Point>, ErrorView>(
                        StepOutcome {
                            plan: Some(CompositionPlan::of(Background::Black)),
                            ..done
                        },
                    ),
                }
            },
        }
    } else {
        &&& eff.captured.len() == 0
        &&& eff.asked.len() == 1
        &&& eff.outcome == Ok::<StepOutcome<G::Point>, ErrorView>(done)
    }
}

/// What came of a step.
pub open spec fn step_view<T>(r: Result<StepOutcome<T>, Error>) -> Result<
    StepOutcome<T>,
    ErrorView,
> {
    match r {
        Ok(outcome) => Ok(outcome),
        Err(e) => Err(e@),
    }
}

proof fn lemma_parts_push(log: Seq<Emitted>, e: Emitted)
    ensures
        whats(log.push(e)) == whats(log).push(e.what),
        drawn_part(log.push(e)) == drawn_part(log).push(e.id),
        log.push(e).drop_last() == log,
{
    assert(whats(log.push(e)) =~= whats(log).push(e.what));
    assert(drawn_part(log.push(e)) =~= drawn_part(log).push(e.id));
    assert(log.push(e).drop_last() =~= log);
}

proof fn lemma_parts_concat(a: Seq<Emitted>, b: Seq<Emitted>)
    ensures
        drawn_part(a + b) == drawn_part(a) + drawn_part(b),
        pointer_part(a + b) == pointer_part(a) + pointer_part(b),
        key_part(a + b) == key_part(a) + key_part(b),
    decreases b.len(),
{
    assert(drawn_part(a + b) =~= drawn_part(a) + drawn_part(b));
    if b.len() == 0 {
        assert(a + b =~= a);
        assert(pointer_part(a + b) =~= pointer_part(a) + pointer_part(b));
        assert(key_part(a + b) =~= key_part(a) + key_part(b));
    } else {
        assert((a + b).drop_last() =~= a + b.drop_last());
        lemma_parts_concat(a, b.drop_last());
        assert(pointer_part(a + b) =~= pointer_part(a) + pointer_part(b));
        assert(key_part(a + b) =~= key_part(a) + key_part(b));
    }
}

/// Counts of one step.
#[derive(Debug, Clone, Copy)]
struct Tally {
    pointer: usize,
    key: usize,
    stopping: bool,
}

/// Drives one panel.
pub struct PanelDriver<
    G: Geometry,
    C: Clock,
    I: IdGen,
    F: FrameSource,
    Q: PointerSink,
    K: KeyboardSink,
    Z: Sleeper,
> {
    wiring: PanelWiring<C, I, F, Q, K, Z>,
    config: DriverConfig,
    panel: Panel<G::Size, G::Pose>,
    output: OutputId,
    grab: GrabState<G::Pose>,
    hold: PointerHold,
    poses: ControllerPoses<G::Pose>,
    state: SessionState,
}

impl<
    G: Geometry,
    C: Clock,
    I: IdGen,
    F: FrameSource,
    Q: PointerSink,
    K: KeyboardSink,
    Z: Sleeper,
> PanelDriver<G, C, I, F, Q, K, Z> {
    /// What the driver works with.
    pub closed spec fn gear(&self) -> PanelWiring<C, I, F, Q, K, Z> {
        self.wiring
    }

    /// How the panel is driven.
    pub closed spec fn settings(&self) -> DriverConfig {
        self.config
    }

    /// The output whose frames are shown.
    pub closed spec fn source(&self) -> Seq<char> {
        self.output@
    }

    /// What the driver remembers.
    pub closed spec fn snapshot(&self) -> DriverState<G::Size, G::Pose> {
        DriverState {
            panel: self.panel@,
            grab: self.grab,
            hold: self.hold,
            poses: self.poses,
            state: self.state,
        }
    }

    /// A driver whose panel nobody holds, before any hand was seen.
    pub fn new(
        wiring: PanelWiring<C, I, F, Q, K, Z>,
        config: DriverConfig,
        panel: Panel<G::Size, G::Pose>,
        output: OutputId,
    ) -> (r: Self)
        ensures
            r.gear() == wiring,
            r.settings() == config,
            r.source() == output@,
            r.snapshot() == (DriverState {
                panel: panel@,
                grab: GrabState::Released,
                hold: PointerHold::Up,
                poses: ControllerPoses { left: None, right: None },
                state: SessionState::Idle,
            }),
    {
        PanelDriver {
            wiring,
            config,
            panel,
            output,
            grab: GrabState::Released,
            hold: PointerHold::Up,
            poses: ControllerPoses::new(),
            state: SessionState::Idle,
        }
    }

    /// What the driver works with.
    pub fn wiring(&self) -> (r: &PanelWiring<C, I, F, Q, K, Z>)
        ensures
            *r == self.gear(),
    {
        &self.wiring
    }

    /// The panel.
    pub fn panel(&self) -> (r: &Panel<G::Size, G::Pose>)
        ensures
            r@ == self.snapshot().panel,
    {
        &self.panel
    }

    /// Whether the panel is held.
    pub fn grab(&self) -> (r: &GrabState<G::Pose>)
        ensures
            *r == self.snapshot().grab,
    {
        &self.grab
    }

    /// Whether the pointer's button is held.
    pub fn hold(&self) -> (r: PointerHold)
        ensures
            r == self.snapshot().hold,
    {
        self.hold
    }

    /// How far the session has come.
    pub fn state(&self) -> (r: SessionState)
        ensures
            r == self.snapshot().state,
    {
        self.state
    }

    /// What the session is opened with.
    pub fn session_config(&self) -> (r: SessionConfig<G::Size, G::Pose>)
        ensures
            r.panel@ == self.snapshot().panel,
            r.background == Background::Black,
    {
        SessionConfig::for_panel(
            Panel::single(self.panel.size(), self.panel.resolution(), self.panel.pose()),
        )
    }

    /// Where the cursor is.
    pub fn cursor(&self) -> (r: Option<CursorResolution<G::Point>>)
        ensures
            r == cursor_of::<G>(self.settings(), self.snapshot()),
    {
        match self.poses.get(self.config.pointer_controller) {
            Some(hand) => Some(resolve_cursor::<G>(&self.panel, hand, self.hold)),
            None => None,
        }
    }

    /// Whether everything but what is handed over is as in `other`.
    spec fn agrees_with(&self, other: &Self) -> bool {
        &&& self.config == other.config
        &&& self.output == other.output
        &&& self.wiring.clock == other.wiring.clock
        &&& self.wiring.frames == other.wiring.frames
        &&& self.wiring.sleeper == other.wiring.sleeper
    }

    /// Whether exactly `log` was handed over since `other`.
    spec fn handed_since(&self, other: &Self, log: Seq<Emitted>) -> bool {
        &&& self.wiring.clock == other.wiring.clock
        &&& timed(other.wiring.clock, log)
        &&& self.wiring.ids.drawn() == other.wiring.ids.drawn() + drawn_part(log)
        &&& self.wiring.pointer.pointer_offered() == other.wiring.pointer.pointer_offered()
            + pointer_part(log)
        &&& self.wiring.keyboard.keys_offered() == other.wiring.keyboard.keys_offered()
            + key_part(log)
    }

    fn emit_pointer(&mut self, kind: PointerEventKind, Ghost(log): Ghost<Seq<Emitted>>) -> (r: (
        Result<Delivery, Error>,
        Ghost<Emitted>,
    ))
        ensures
            final(self).agrees_with(old(self)),
            final(self).snapshot() == old(self).snapshot(),
            r.1@.what == Emission::Pointer(kind),
            forall|first: &Self|
                old(self).handed_since(first, log) ==> #[trigger] final(self).handed_since(
                    first,
                    log.push(r.1@),
                ),
            match r.0 {
                Ok(d) => r.1@.succeeded() && r.1@.delivered == Ok::<Delivery, ErrorView>(d),
                Err(e) => !r.1@.succeeded() && r.1@.error() == e@,
            },
    {
        let drawn = self.wiring.ids.next_id();
        let ghost id = drawn_view(drawn);
        match drawn {
            Err(e) => {
                let ghost entry = Emitted {
                    what: Emission::Pointer(kind),
                    id,
                    at: arbitrary(),
                    delivered: Err(e@),
                };
                proof {
                    lemma_parts_push(log, entry);
                    assert forall|first: &Self| old(self).handed_since(first, log) implies
                        #[trigger] self.handed_since(first, log.push(entry)) by {
                        assert(self.wiring.ids.drawn() =~= first.wiring.ids.drawn() + drawn_part(
                            log.push(entry),
                        ));
                    }
                }
                (Err(e), Ghost(entry))
            },
            Ok(key) => {
                let event = PointerEvent {
                    idempotency_key: IdempotencyKey::new(key),
                    at: self.wiring.clock.now_utc(),
                    kind,
                };
                let delivered = self.wiring.pointer.deliver(&event);
                let ghost entry = Emitted {
                    what: Emission::Pointer(kind),
                    id,
                    at: event.at,
                    delivered: delivery_view(delivered),
                };
                proof {
                    lemma_parts_push(log, entry);
                    assert forall|first: &Self| old(self).handed_since(first, log) implies
                        #[trigger] self.handed_since(first, log.push(entry)) by {
                        assert(self.wiring.ids.drawn() =~= first.wiring.ids.drawn() + drawn_part(
                            log.push(entry),
                        ));
                        assert(self.wiring.pointer.pointer_offered()
                            =~= first.wiring.pointer.pointer_offered() + pointer_part(
                            log.push(entry),
                        ));
                    }
                }
                (delivered, Ghost(entry))
            },
        }
    }

    fn emit_key(
        &mut self,
        keycode: Keycode,
        state: ButtonState,
        Ghost(log): Ghost<Seq<Emitted>>,
    ) -> (r: (Result<Delivery, Error>, Ghost<Emitted>))
        ensures
            final(self).agrees_with(old(self)),
            final(self).snapshot() == old(self).snapshot(),
            r.1@.what == (Emission::Key { keycode, state }),
            forall|first: &Self|
                old(self).handed_since(first, log) ==> #[trigger] final(self).handed_since(
                    first,
                    log.push(r.1@),
                ),
            match r.0 {
                Ok(d) => r.1@.succeeded() && r.1@.delivered == Ok::<Delivery, ErrorView>(d),
                Err(e) => !r.1@.succeeded() && r.1@.error() == e@,
            },
    {
        let drawn = self.wiring.ids.next_id();
        let ghost id = drawn_view(drawn);
        match drawn {
            Err(e) => {
                let ghost entry = Emitted {
                    what: Emission::Key { keycode, state },
                    id,
                    at: arbitrary(),
                    delivered: Err(e@),
                };
                proof {
                    lemma_parts_push(log, entry);
                    assert forall|first: &Self| old(self).handed_since(first, log) implies
                        #[trigger] self.handed_since(first, log.push(entry)) by {
                        assert(self.wiring.ids.drawn() =~= first.wiring.ids.drawn() + drawn_part(
                            log.push(entry),
                        ));
                    }
                }
                (Err(e), Ghost(entry))
            },
            Ok(key) => {
                let event = KeyEvent {
                    idempotency_key: IdempotencyKey::new(key),
                    at: self.wiring.clock.now_utc(),
                    keycode,
                    state,
                };
                let delivered = self.wiring.keyboard.deliver(&event);
                let ghost entry = Emitted {
                    what: Emission::Key { keycode, state },
                    id,
                    at: event.at,
                    delivered: delivery_view(delivered),
                };
                proof {
                    lemma_parts_push(log, entry);
                    assert forall|first: &Self| old(self).handed_since(first, log) implies
                        #[trigger] self.handed_since(first, log.push(entry)) by {
                        assert(self.wiring.ids.drawn() =~= first.wiring.ids.drawn() + drawn_part(
                            log.push(entry),
                        ));
                        assert(self.wiring.keyboard.keys_offered()
                            =~= first.wiring.keyboard.keys_offered() + key_part(log.push(entry)));
                    }
                }
                (delivered, Ghost(entry))
            },
        }
    }

    /// Applies what an event changes in the driver itself.
    fn absorb(&mut self, event: XrEvent<G::Pose>)
        ensures
            final(self).agrees_with(old(self)),
            final(self).wiring == old(self).wiring,
            final(self).snapshot() == after_event::<G>(
                old(self).config,
                old(self).snapshot(),
                event,
            ),
    {
        match event {
            XrEvent::StateChanged(state) => {
                self.state = state;
            },
            XrEvent::ControllerPose { controller, pose } => {
                self.poses.set(controller, pose);
                let holder = self.grab.controller();
                let mine = match holder {
                    Some(h) => h == controller,
                    None => false,
                };
                if mine {
                    if let Some(carried) = panel_pose_while_held::<G>(self.grab, pose) {
                        self.panel = Panel::single(
                            self.panel.size(),
                            self.panel.resolution(),
                            carried,
                        );
                    }
                }
            },
            XrEvent::GrabButton { controller, state } => match state {
                PressState::Pressed => {
                    if let Some(hand) = self.poses.get(controller) {
                        self.grab = begin_grab::<G>(controller, hand, self.panel.pose());
                    }
                },
                PressState::Released => {
                    let mine = match self.grab.controller() {
                        Some(h) => h == controller,
                        None => false,
                    };
                    if mine {
                        self.grab = release_grab();
                    }
                },
            },
            XrEvent::PointerButton { controller, state } => {
                if controller == self.config.pointer_controller {
                    self.hold = match state {
                        PressState::Pressed => PointerHold::Down,
                        PressState::Released => PointerHold::Up,
                    };
                }
            },
            XrEvent::Key { .. } => {},
        }
    }

    /// Applies the events in order, and hands clicks and keys over as they come.
    fn apply_events(&mut self, events: &Vec<XrEvent<G::Pose>>) -> (r: (
        Result<Tally, Error>,
        Ghost<Seq<Emitted>>,
    ))
        ensures
            final(self).agrees_with(old(self)),
            final(self).handed_since(old(self), r.1@),
            match r.0 {
                Ok(tally) => {
                    &&& all_succeeded(r.1@)
                    &&& whats(r.1@) == emissions(old(self).config, events@)
                    &&& final(self).snapshot() == after_events::<G>(
                        old(self).config,
                        old(self).snapshot(),
                        events@,
                    )
                    &&& tally.pointer == capped(pointer_count(r.1@))
                    &&& tally.key == capped(key_count(r.1@))
                    &&& tally.stopping == says_stop(events@)
                },
                Err(e) => {
                    &&& r.1@.len() > 0
                    &&& all_succeeded(r.1@.drop_last())
                    &&& !r.1@.last().succeeded()
                    &&& r.1@.last().error() == e@
                    &&& exists|n: int|
                        #![trigger events@.take(n)]
                        {
                            &&& 0 <= n <= events@.len()
                            &&& final(self).snapshot() == after_events::<G>(
                                old(self).config,
                                old(self).snapshot(),
                                events@.take(n),
                            )
                            &&& failed_at_event(old(self).config, events@, n, r.1@)
                        }
                },
            },
    {
        let ghost mut log: Seq<Emitted> = Seq::empty();
        let mut tally = Tally { pointer: 0, key: 0, stopping: false };
        proof {
            assert(whats(log) =~= Seq::<Emission>::empty());
            assert(self.wiring.ids.drawn() =~= old(self).wiring.ids.drawn() + drawn_part(log));
            assert(self.wiring.pointer.pointer_offered() =~= old(
                self,
            ).wiring.pointer.pointer_offered() + pointer_part(log));
            assert(self.wiring.keyboard.keys_offered() =~= old(self).wiring.keyboard.keys_offered()
                + key_part(log));
        }
        let mut i: usize = 0;
        while i < events.len()
            invariant
                i <= events.len(),
                self.agrees_with(old(self)),
                self.handed_since(old(self), log),
                all_succeeded(log),
                whats(log) == emissions(old(self).config, events@.take(i as int)),
                self.snapshot() == after_events::<G>(
                    old(self).config,
                    old(self).snapshot(),
                    events@.take(i as int),
                ),
                tally.pointer == capped(pointer_count(log)),
                tally.key == capped(key_count(log)),
                tally.stopping == says_stop(events@.take(i as int)),
            decreases events.len() - i,
        {
            let event = events[i];
            let ghost done = events@.take(i as int + 1);
            let ghost earlier = events@.take(i as int);
            proof {
                assert(done.drop_last() =~= earlier);
                assert(done.last() == event);
                if says_stop(earlier) {
                    let k = choose|k: int|
                        0 <= k < earlier.len() && earlier[k] == XrEvent::<
                            G::Pose,
                        >::StateChanged(SessionState::Stopping);
                    assert(done[k] == earlier[k]);
                }
                if event == XrEvent::<G::Pose>::StateChanged(SessionState::Stopping) {
                    assert(done[i as int] == event);
                }
                if says_stop(done) && event != XrEvent::<G::Pose>::StateChanged(
                    SessionState::Stopping,
                ) {
                    let k = choose|k: int|
                        0 <= k < done.len() && done[k] == XrEvent::<G::Pose>::StateChanged(
                            SessionState::Stopping,
                        );
                    assert(earlier[k] == done[k]);
                }
            }
            self.absorb(event);
            match event {
                XrEvent::StateChanged(state) => {
                    if state == SessionState::Stopping {
                        tally.stopping = true;
                    }
                },
                XrEvent::PointerButton { controller, state } => {
                    if controller == self.config.pointer_controller {
                        let kind = PointerEventKind::Button {
                            button: self.config.click_button,
                            state: state.to_input_state(),
                        };
                        let (delivered, entry) = self.emit_pointer(kind, Ghost(log));
                        proof {
                            lemma_parts_push(log, entry@);
                            log = log.push(entry@);
                        }
                        match delivered {
                            Ok(d) => {
                                if d == Delivery::Delivered {
                                    tally.pointer = tally.pointer.saturating_add(1);
                                }
                            },
                            Err(e) => {
                                return (Err(e), Ghost(log));
                            },
                        }
                    }
                },
                XrEvent::Key { keycode, state } => {
                    let (delivered, entry) = self.emit_key(
                        keycode,
                        state.to_input_state(),
                        Ghost(log),
                    );
                    proof {
                        lemma_parts_push(log, entry@);
                        log = log.push(entry@);
                    }
                    match delivered {
                        Ok(d) => {
                            if d == Delivery::Delivered {
                                tally.key = tally.key.saturating_add(1);
                            }
                        },
                        Err(e) => {
                            return (Err(e), Ghost(log));
                        },
                    }
                },
                XrEvent::ControllerPose { .. } => {},
                XrEvent::GrabButton { .. } => {},
            }
            i = i + 1;
        }
        assert(events@.take(i as int) =~= events@);
        (Ok(tally), Ghost(log))
    }

    /// One step: see [`step_run`].
    pub fn step<X: XrSession<G::Size, G::Pose>>(&mut self, session: &mut X) -> (r: Result<
        StepOutcome<G::Point>,
        Error,
    >)
        ensures
            stepped(*old(self), *final(self), *old(session), *final(session), step_view(r)),
    {
        let ghost before = self.snapshot();
        let ghost presents = session.presents();
        proof {
            reveal(step_run);
        }
        let polled = session.poll_events();
        let ghost poll = SessionCall::<G::Size, G::Pose>::Polled(poll_view(polled));
        let events = match polled {
            Ok(events) => events,
            Err(e) => {
                proof {
                    let eff = StepEffect::<G::Size, G::Pose, G::Point> {
                        before,
                        after: before,
                        log: Seq::empty(),
                        asked: seq![poll],
                        captured: Seq::empty(),
                        outcome: Err(e@),
                    };
                    lemma_stepped_by(*old(self), *self, *old(session), *session, eff);
                }
                return Err(e);
            },
        };
        let (applied, log) = self.apply_events(&events);
        let ghost full = after_events::<G>(self.config, before, events@);
        let ghost all = emissions(self.config, events@) + motion_of::<G>(self.config, full);
        let tally = match applied {
            Ok(tally) => tally,
            Err(e) => {
                proof {
                    let eff = StepEffect::<G::Size, G::Pose, G::Point> {
                        before,
                        after: self.snapshot(),
                        log: log@,
                        asked: seq![poll],
                        captured: Seq::empty(),
                        outcome: Err(e@),
                    };
                    assert(!log@[log@.len() - 1].succeeded());
                    lemma_stepped_by(*old(self), *self, *old(session), *session, eff);
                }
                return Err(e);
            },
        };
        let cursor = self.cursor();
        let mut pointer_deliveries: usize = tally.pointer;
        let ghost mut log: Seq<Emitted> = log@;
        let target = match cursor {
            Some(c) => c.point(),
            None => None,
        };
        match target {
            Some(point) => {
                let pixels = to_pixels::<G>(&self.panel, point);
                let kind = PointerEventKind::MotionAbsolute { x_px: pixels.x, y_px: pixels.y };
                let (delivered, entry) = self.emit_pointer(kind, Ghost(log));
                proof {
                    lemma_parts_push(log, entry@);
                    assert(whats(log).push(Emission::Pointer(kind)) =~= all);
                    log = log.push(entry@);
                }
                match delivered {
                    Ok(d) => {
                        if d == Delivery::Delivered {
                            pointer_deliveries = pointer_deliveries.saturating_add(1);
                        }
                    },
                    Err(e) => {
                        proof {
                            let eff = StepEffect::<G::Size, G::Pose, G::Point> {
                                before,
                                after: self.snapshot(),
                                log,
                                asked: seq![poll],
                                captured: Seq::empty(),
                                outcome: Err(e@),
                            };
                            assert(!log[log.len() - 1].succeeded());
                            assert(events@.take(events@.len() as int) =~= events@);
                            lemma_stepped_by(*old(self), *self, *old(session), *session, eff);
                        }
                        return Err(e);
                    },
                }
            },
            None => {
                assert(whats(log) =~= all);
            },
        }
        assert(self.handed_since(old(self), log));
        let outcome = StepOutcome {
            applied_events: events.len(),
            cursor,
            pointer_deliveries,
            key_deliveries: tally.key,
            plan: None,
            state: self.state,
            stopping: tally.stopping,
        };
        if !session.presents_frames() {
            proof {
                let eff = StepEffect::<G::Size, G::Pose, G::Point> {
                    before,
                    after: full,
                    log,
                    asked: seq![poll],
                    captured: Seq::empty(),
                    outcome: Ok(outcome),
                };
                lemma_stepped_by(*old(self), *self, *old(session), *session, eff);
            }
            return Ok(outcome);
        }
        let captured = self.wiring.frames.capture(&self.output);
        let ghost shot = CaptureView {
            output: self.output@,
            outcome: crate::capture::capture_outcome(captured),
        };
        let frame = match captured {
            Ok(frame) => frame,
            Err(e) => {
                proof {
                    let eff = StepEffect::<G::Size, G::Pose, G::Point> {
                        before,
                        after: full,
                        log,
                        asked: seq![poll],
                        captured: seq![shot],
                        outcome: Err(e@),
                    };
                    lemma_stepped_by(*old(self), *self, *old(session), *session, eff);
                }
                return Err(e);
            },
        };
        let plan = CompositionPlan::for_session(&self.session_config());
        let submitted = session.submit_frame(&frame, &self.panel);
        let ghost submit = SessionCall::<G::Size, G::Pose>::Submitted {
            frame: frame@,
            panel: self.panel@,
            outcome: done_view(submitted),
        };
        let r = match submitted {
            Ok(_) => Ok(
                StepOutcome {
                    applied_events: outcome.applied_events,
                    cursor: outcome.cursor,
                    pointer_deliveries: outcome.pointer_deliveries,
                    key_deliveries: outcome.key_deliveries,
                    plan: Some(plan),
                    state: outcome.state,
                    stopping: outcome.stopping,
                },
            ),
            Err(e) => Err(e),
        };
        proof {
            let eff = StepEffect::<G::Size, G::Pose, G::Point> {
                before,
                after: full,
                log,
                asked: seq![poll, submit],
                captured: seq![shot],
                outcome: step_view(r),
            };
            lemma_stepped_by(*old(self), *self, *old(session), *session, eff);
        }
        r
    }
}

/// Whether the driver and the session got from one state to the next by the given
/// step.
pub open spec fn stepped_by<
    G: Geometry,
    C: Clock,
    I: IdGen,
    F: FrameSource,
    Q: PointerSink,
    K: KeyboardSink,
    Z: Sleeper,
    X: XrSession<G::Size, G::Pose>,
>(
    d0: PanelDriver<G, C, I, F, Q, K, Z>,
    d1: PanelDriver<G, C, I, F, Q, K, Z>,
    s0: X,
    s1: X,
    eff: StepEffect<G::Size, G::Pose, G::Point>,
) -> bool {
    &&& step_run::<G>(d0.settings(), d0.source(), s0.presents(), eff)
    &&& eff.before == d0.snapshot()
    &&& eff.after == d1.snapshot()
    &&& d1.settings() == d0.settings()
    &&& d1.source() == d0.source()
    &&& d1.gear().clock == d0.gear().clock
    &&& timed(d0.gear().clock, eff.log)
    &&& d1.gear().ids.drawn() == d0.gear().ids.drawn() + drawn_part(eff.log)
    &&& d1.gear().pointer.pointer_offered() == d0.gear().pointer.pointer_offered() + pointer_part(
        eff.log,
    )
    &&& d1.gear().keyboard.keys_offered() == d0.gear().keyboard.keys_offered() + key_part(eff.log)
    &&& d1.gear().frames.captures() == d0.gear().frames.captures() + eff.captured
    &&& d1.gear().sleeper == d0.gear().sleeper
    &&& s1.asked() == s0.asked() + eff.asked
    &&& s1.presents() == s0.presents()
}

/// Whether the driver and the session got from one state to the next by a step
/// with the given outcome.
pub open spec fn stepped<
    G: Geometry,
    C: Clock,
    I: IdGen,
    F: FrameSource,
    Q: PointerSink,
    K: KeyboardSink,
    Z: Sleeper,
    X: XrSession<G::Size, G::Pose>,
>(
    d0: PanelDriver<G, C, I, F, Q, K, Z>,
    d1: PanelDriver<G, C, I, F, Q, K, Z>,
    s0: X,
    s1: X,
    outcome: Result<StepOutcome<G::Point>, ErrorView>,
) -> bool {
    exists|eff: StepEffect<G::Size, G::Pose, G::Point>| #[trigger]
        stepped_by(d0, d1, s0, s1, eff) && eff.outcome == outcome
}

proof fn lemma_stepped_by<
    G: Geometry,
    C: Clock,
    I: IdGen,
    F: FrameSource,
    Q: PointerSink,
    K: KeyboardSink,
    Z: Sleeper,
    X: XrSession<G::Size, G::Pose>,
>(
    d0: PanelDriver<G, C, I, F, Q, K, Z>,
    d1: PanelDriver<G, C, I, F, Q, K, Z>,
    s0: X,
    s1: X,
    eff: StepEffect<G::Size, G::Pose, G::Point>,
)
    requires
        step_run::<G>(d0.settings(), d0.source(), s0.presents(), eff),
        eff.before == d0.snapshot(),
        eff.after == d1.snapshot(),
        d1.config == d0.config,
        d1.output == d0.output,
        d1.handed_since(&d0, eff.log) || (eff.log.len() == 0 && d1.wiring.clock == d0.wiring.clock
            && d1.wiring.ids == d0.wiring.ids && d1.wiring.pointer == d0.wiring.pointer && d1.wiring.keyboard
            == d0.wiring.keyboard),
        d1.wiring.frames.captures() =~= d0.wiring.frames.captures() + eff.captured,
        d1.wiring.sleeper == d0.wiring.sleeper,
        s1.asked() =~= s0.asked() + eff.asked,
        s1.presents() == s0.presents(),
    ensures
        stepped_by(d0, d1, s0, s1, eff),
        stepped(d0, d1, s0, s1, eff.outcome),
{
    if eff.log.len() == 0 {
        assert(d1.gear().ids.drawn() =~= d0.gear().ids.drawn() + drawn_part(eff.log));
        assert(d1.gear().pointer.pointer_offered() =~= d0.gear().pointer.pointer_offered()
            + pointer_part(eff.log));
        assert(d1.gear().keyboard.keys_offered() =~= d0.gear().keyboard.keys_offered() + key_part(
            eff.log,
        ));
    }
    assert(stepped_by(d0, d1, s0, s1, eff));
}

/// What a row of steps asked of the session.
pub open spec fn asked_in<S, P, T>(steps: Seq<StepEffect<S, P, T>>) -> Seq<SessionCall<S, P>>
    decreases steps.len(),
{
    if steps.len() == 0 {
        Seq::empty()
    } else {
        asked_in(steps.drop_last()) + steps.last().asked
    }
}

/// What a row of steps captured.
pub open spec fn captured_in<S, P, T>(steps: Seq<StepEffect<S, P, T>>) -> Seq<CaptureView>
    decreases steps.len(),
{
    if steps.len() == 0 {
        Seq::empty()
    } else {
        captured_in(steps.drop_last()) + steps.last().captured
    }
}

/// What a row of steps was to hand over.
pub open spec fn log_of<S, P, T>(steps: Seq<StepEffect<S, P, T>>) -> Seq<Emitted>
    decreases steps.len(),
{
    if steps.len() == 0 {
        Seq::empty()
    } else {
        log_of(steps.drop_last()) + steps.last().log
    }
}

/// Whether a step neither failed nor met the end of the session.
pub open spec fn goes_on<S, P, T>(step: StepEffect<S, P, T>) -> bool {
    step.outcome is Ok && !step.outcome->Ok_0.stopping
}

/// Whether a step begins where the one before it ended.
pub open spec fn follows<S, P, T>(
    first: DriverState<S, P>,
    steps: Seq<StepEffect<S, P, T>>,
    i: int,
) -> bool {
    steps[i].before == (if i == 0 {
        first
    } else {
        steps[i - 1].after
    })
}

/// A row of steps, each from where the one before it ended, of which every one but
/// the last goes on.
pub open spec fn steps_chain<G: Geometry>(
    config: DriverConfig,
    output: Seq<char>,
    presents: bool,
    first: DriverState<G::Size, G::Pose>,
    steps: Seq<StepEffect<G::Size, G::Pose, G::Point>>,
) -> bool {
    &&& forall|i: int|
        0 <= i < steps.len() ==> #[trigger] step_run::<G>(config, output, presents, steps[i])
    &&& forall|i: int| 0 <= i < steps.len() ==> #[trigger] follows(first, steps, i)
    &&& forall|i: int| 0 <= i < steps.len() - 1 ==> goes_on(#[trigger] steps[i])
}

/// How many waits a row of steps takes: one after each step that goes on.
pub open spec fn wait_count<S, P, T>(steps: Seq<StepEffect<S, P, T>>) -> nat {
    if steps.len() > 0 && !goes_on(steps.last()) {
        (steps.len() - 1) as nat
    } else {
        steps.len()
    }
}

/// The waits of a row of steps.
pub open spec fn waits(config: DriverConfig, count: nat) -> Seq<u64> {
    Seq::new(count, |i: int| config.step_interval_millis)
}

/// What is told of a run: its own error, else that of ending the session, else how
/// it went.
pub open spec fn with_end<A>(
    looped: Result<A, ErrorView>,
    ended: Result<(), ErrorView>,
) -> Result<A, ErrorView> {
    match (looped, ended) {
        (Err(e), _) => Err(e),
        (Ok(_), Err(e)) => Err(e),
        (Ok(a), Ok(_)) => Ok(a),
    }
}

/// How a bounded row of steps went: the error of its last step, or the number of
/// steps until the session stopped, or that the budget was not enough.
pub open spec fn bounded_result<S, P, T>(
    steps: Seq<StepEffect<S, P, T>>,
    budget: usize,
) -> Result<usize, ErrorView> {
    if steps.len() > 0 && steps.last().outcome is Err {
        Err(steps.last().outcome->Err_0)
    } else if steps.len() > 0 && steps.last().outcome->Ok_0.stopping {
        Ok(steps.len() as usize)
    } else {
        Err(budget_error(budget))
    }
}

/// What came of a bounded run.
pub open spec fn count_view(r: Result<usize, Error>) -> Result<usize, ErrorView> {
    match r {
        Ok(n) => Ok(n),
        Err(e) => Err(e@),
    }
}

/// Whether the driver and the session got from one state to the next by the given
/// steps and the waits between them.
pub open spec fn ran_by<
    G: Geometry,
    C: Clock,
    I: IdGen,
    F: FrameSource,
    Q: PointerSink,
    K: KeyboardSink,
    Z: Sleeper,
    X: XrSession<G::Size, G::Pose>,
>(
    d0: PanelDriver<G, C, I, F, Q, K, Z>,
    d1: PanelDriver<G, C, I, F, Q, K, Z>,
    s0: X,
    s1: X,
    steps: Seq<StepEffect<G::Size, G::Pose, G::Point>>,
) -> bool {
    &&& steps_chain::<G>(d0.settings(), d0.source(), s0.presents(), d0.snapshot(), steps)
    &&& d1.snapshot() == (if steps.len() == 0 {
        d0.snapshot()
    } else {
        steps.last().after
    })
    &&& d1.settings() == d0.settings()
    &&& d1.source() == d0.source()
    &&& d1.gear().clock == d0.gear().clock
    &&& timed(d0.gear().clock, log_of(steps))
    &&& d1.gear().ids.drawn() == d0.gear().ids.drawn() + drawn_part(log_of(steps))
    &&& d1.gear().pointer.pointer_offered() == d0.gear().pointer.pointer_offered() + pointer_part(
        log_of(steps),
    )
    &&& d1.gear().keyboard.keys_offered() == d0.gear().keyboard.keys_offered() + key_part(
        log_of(steps),
    )
    &&& d1.gear().frames.captures() == d0.gear().frames.captures() + captured_in(steps)
    &&& d1.gear().sleeper.slept() == d0.gear().sleeper.slept() + waits(
        d0.settings(),
        wait_count(steps),
    )
    &&& s1.asked() == s0.asked() + asked_in(steps)
    &&& s1.presents() == s0.presents()
}

proof fn lemma_ran_none<
    G: Geometry,
    C: Clock,
    I: IdGen,
    F: FrameSource,
    Q: PointerSink,
    K: KeyboardSink,
    Z: Sleeper,
    X: XrSession<G::Size, G::Pose>,
>(d0: PanelDriver<G, C, I, F, Q, K, Z>, s0: X)
    ensures
        ran_by(d0, d0, s0, s0, Seq::empty()),
{
    let none = Seq::<StepEffect<G::Size, G::Pose, G::Point>>::empty();
    assert(drawn_part(log_of(none)) =~= Seq::<Result<IdView, ErrorView>>::empty());
    assert(d0.gear().ids.drawn() + drawn_part(log_of(none)) =~= d0.gear().ids.drawn());
    assert(d0.gear().pointer.pointer_offered() + pointer_part(log_of(none))
        =~= d0.gear().pointer.pointer_offered());
    assert(d0.gear().keyboard.keys_offered() + key_part(log_of(none))
        =~= d0.gear().keyboard.keys_offered());
    assert(d0.gear().frames.captures() + captured_in(none) =~= d0.gear().frames.captures());
    assert(d0.gear().sleeper.slept() + waits(d0.settings(), 0) =~= d0.gear().sleeper.slept());
    assert(s0.asked() + asked_in(none) =~= s0.asked());
}

/// One more step at the end of a row that goes on. `d2` is `d1` after the step and,
/// where the step goes on, after the wait that follows it.
proof fn lemma_ran_more<
    G: Geometry,
    C: Clock,
    I: IdGen,
    F: FrameSource,
    Q: PointerSink,
    K: KeyboardSink,
    Z: Sleeper,
    X: XrSession<G::Size, G::Pose>,
>(
    d0: PanelDriver<G, C, I, F, Q, K, Z>,
    d1: PanelDriver<G, C, I, F, Q, K, Z>,
    stepped_to: PanelDriver<G, C, I, F, Q, K, Z>,
    d2: PanelDriver<G, C, I, F, Q, K, Z>,
    s0: X,
    s1: X,
    s2: X,
    steps: Seq<StepEffect<G::Size, G::Pose, G::Point>>,
    eff: StepEffect<G::Size, G::Pose, G::Point>,
)
    requires
        ran_by(d0, d1, s0, s1, steps),
        forall|i: int| 0 <= i < steps.len() ==> goes_on(#[trigger] steps[i]),
        stepped_by(d1, stepped_to, s1, s2, eff),
        d2.snapshot() == stepped_to.snapshot(),
        d2.settings() == stepped_to.settings(),
        d2.source() == stepped_to.source(),
        d2.gear().clock == stepped_to.gear().clock,
        d2.gear().ids == stepped_to.gear().ids,
        d2.gear().pointer == stepped_to.gear().pointer,
        d2.gear().keyboard == stepped_to.gear().keyboard,
        d2.gear().frames == stepped_to.gear().frames,
        d2.gear().sleeper.slept() == (if goes_on(eff) {
            stepped_to.gear().sleeper.slept().push(d0.settings().step_interval_millis)
        } else {
            stepped_to.gear().sleeper.slept()
        }),
    ensures
        ran_by(d0, d2, s0, s2, steps.push(eff)),
{
    let more = steps.push(eff);
    assert(more.drop_last() =~= steps);
    lemma_parts_concat(log_of(steps), eff.log);
    assert(d2.gear().ids.drawn() =~= d0.gear().ids.drawn() + drawn_part(log_of(more)));
    assert(d2.gear().pointer.pointer_offered() =~= d0.gear().pointer.pointer_offered()
        + pointer_part(log_of(more)));
    assert(d2.gear().keyboard.keys_offered() =~= d0.gear().keyboard.keys_offered() + key_part(
        log_of(more),
    ));
    assert(d2.gear().frames.captures() =~= d0.gear().frames.captures() + captured_in(more));
    assert(s2.asked() =~= s0.asked() + asked_in(more));
    if steps.len() > 0 {
        assert(goes_on(steps[steps.len() - 1]));
    }
    assert(wait_count(steps) == steps.len());
    assert(d2.gear().sleeper.slept() =~= d0.gear().sleeper.slept() + waits(
        d0.settings(),
        wait_count(more),
    ));
    assert forall|i: int| 0 <= i < more.len() implies #[trigger] step_run::<G>(
        d0.settings(),
        d0.source(),
        s0.presents(),
        more[i],
    ) by {
        if i < steps.len() {
            assert(step_run::<G>(d0.settings(), d0.source(), s0.presents(), steps[i]));
        }
    }
    assert forall|i: int| 0 <= i < more.len() implies #[trigger] follows(
        d0.snapshot(),
        more,
        i,
    ) by {
        if i < steps.len() {
            assert(follows(d0.snapshot(), steps, i));
        }
    }
}

/// The end of a session.
pub open spec fn end_call<S, P>(ended: Result<(), ErrorView>) -> SessionCall<S, P> {
    SessionCall::Ended(ended)
}

/// Whether the session was ended by exactly the last thing asked of it.
pub open spec fn ended_once<S, P>(asked: Seq<SessionCall<S, P>>) -> bool {
    &&& asked.len() > 0
    &&& asked.last() is Ended
    &&& forall|i: int| 0 <= i < asked.len() - 1 ==> !((#[trigger] asked[i]) is Ended)
}

/// No step ends the session.
proof fn lemma_steps_end_nothing<G: Geometry>(
    config: DriverConfig,
    output: Seq<char>,
    presents: bool,
    first: DriverState<G::Size, G::Pose>,
    steps: Seq<StepEffect<G::Size, G::Pose, G::Point>>,
)
    requires
        forall|i: int|
            0 <= i < steps.len() ==> #[trigger] step_run::<G>(config, output, presents, steps[i]),
    ensures
        forall|i: int| 0 <= i < asked_in(steps).len() ==> !((#[trigger] asked_in(steps)[i]) is Ended),
    decreases steps.len(),
{
    if steps.len() > 0 {
        let rest = steps.drop_last();
        assert forall|i: int| 0 <= i < rest.len() implies #[trigger] step_run::<G>(
            config,
            output,
            presents,
            rest[i],
        ) by {
            assert(rest[i] == steps[i]);
        }
        lemma_steps_end_nothing::<G>(config, output, presents, first, rest);
        assert(step_run::<G>(config, output, presents, steps[steps.len() - 1]));
        reveal(step_run);
        let last = steps.last();
        assert forall|i: int| 0 <= i < asked_in(steps).len() implies !((
        #[trigger] asked_in(steps)[i]) is Ended) by {
            let n = asked_in(rest).len();
            if i < n {
                assert(asked_in(steps)[i] == asked_in(rest)[i]);
            } else {
                assert(asked_in(steps)[i] == last.asked[i - n]);
            }
        }
    }
}

/// Whatever its steps do, a run ends the session exactly once, as the last thing.
pub proof fn law_run_ends_the_session_once<G: Geometry>(
    config: DriverConfig,
    output: Seq<char>,
    presents: bool,
    first: DriverState<G::Size, G::Pose>,
    steps: Seq<StepEffect<G::Size, G::Pose, G::Point>>,
    ended: Result<(), ErrorView>,
)
    requires
        steps_chain::<G>(config, output, presents, first, steps),
    ensures
        ended_once(asked_in(steps).push(end_call(ended))),
{
    lemma_steps_end_nothing::<G>(config, output, presents, first, steps);
}

/// Every event that reaches a sink bears a time that the driver's own clock may have said.
pub proof fn law_event_times_come_from_the_clock<C: Clock>(clock: C, log: Seq<Emitted>)
    requires
        timed(clock, log),
    ensures
        forall|i: int|
            0 <= i < pointer_part(log).len() ==> clock.may_say(
                (#[trigger] pointer_part(log)[i]).event.at,
            ),
        forall|i: int|
            0 <= i < key_part(log).len() ==> clock.may_say((#[trigger] key_part(log)[i]).event.at),
    decreases log.len(),
{
    if log.len() > 0 {
        let earlier = log.drop_last();
        assert forall|i: int| 0 <= i < earlier.len() && earlier[i].id is Ok implies clock.may_say(
            (#[trigger] earlier[i]).at,
        ) by {
            assert(earlier[i] == log[i]);
        }
        law_event_times_come_from_the_clock(clock, earlier);
        assert(log.last() == log[log.len() - 1]);
        assert forall|i: int| 0 <= i < pointer_part(log).len() implies clock.may_say(
            (#[trigger] pointer_part(log)[i]).event.at,
        ) by {
            if i < pointer_part(earlier).len() {
                assert(pointer_part(log)[i] == pointer_part(earlier)[i]);
            }
        }
        assert forall|i: int| 0 <= i < key_part(log).len() implies clock.may_say(
            (#[trigger] key_part(log)[i]).event.at,
        ) by {
            if i < key_part(earlier).len() {
                assert(key_part(log)[i] == key_part(earlier)[i]);
            }
        }
    }
}

/// A hand that lets go of a panel held by the other hand does not drop it.
pub proof fn law_other_hand_does_not_drop<G: Geometry>(
    config: DriverConfig,
    st: DriverState<G::Size, G::Pose>,
    other: ControllerId,
)
    requires
        st.grab.holder() is Some,
        st.grab.holder() != Some(other),
    ensures
        after_event::<G>(
            config,
            st,
            XrEvent::GrabButton { controller: other, state: PressState::Released },
        ) == st,
{
}

/// A panel that nobody holds stays where it is, whatever happens but a grab.
pub proof fn law_released_panel_stays<G: Geometry>(
    config: DriverConfig,
    st: DriverState<G::Size, G::Pose>,
    event: XrEvent<G::Pose>,
)
    requires
        st.grab is Released,
    ensures
        after_event::<G>(config, st, event).panel == st.panel,
{
}

/// The panel keeps its size and its resolution, and stands in the world, through
/// any row of events.
pub proof fn law_panel_keeps_its_shape<G: Geometry>(
    config: DriverConfig,
    st: DriverState<G::Size, G::Pose>,
    events: Seq<XrEvent<G::Pose>>,
)
    ensures
        after_events::<G>(config, st, events).panel.size == st.panel.size,
        after_events::<G>(config, st, events).panel.resolution == st.panel.resolution,
        after_events::<G>(config, st, events).panel.pose.frame == PoseFrame::World,
    decreases events.len(),
{
    if events.len() > 0 {
        law_panel_keeps_its_shape::<G>(config, st, events.drop_last());
    }
}

/// Where the geometry undoes its own offsets, taking the panel and holding still
/// leaves it where it is.
pub proof fn law_grab_without_moving<G: Geometry>(
    config: DriverConfig,
    st: DriverState<G::Size, G::Pose>,
    controller: ControllerId,
    hand: G::Pose,
)
    requires
        st.poses.of(controller) == Some(hand),
        G::carried(hand, G::offset(hand, st.panel.pose.pose)) == st.panel.pose.pose,
    ensures
        ({
            let taken = after_event::<G>(
                config,
                st,
                XrEvent::GrabButton { controller, state: PressState::Pressed },
            );
            let still = after_event::<G>(
                config,
                taken,
                XrEvent::ControllerPose { controller, pose: hand },
            );
            still.panel == st.panel && still.grab.holder() == Some(controller)
        }),
{
}

/// A click of the hand that does not point changes nothing and is not handed over.
pub proof fn law_other_hand_does_not_click<G: Geometry>(
    config: DriverConfig,
    st: DriverState<G::Size, G::Pose>,
    controller: ControllerId,
    state: PressState,
)
    requires
        controller != config.pointer_controller,
    ensures
        after_event::<G>(config, st, XrEvent::PointerButton { controller, state }) == st,
        emission_of(
            config,
            XrEvent::<G::Pose>::PointerButton { controller, state },
        ) is None,
{
}

/// What to do after a turn.
#[derive(Debug, Clone, Copy, PartialEq, Eq, Structural)]
pub enum Turn {
    Again,
    Stop,
}

impl<
    G: Geometry,
    C: Clock,
    I: IdGen,
    F: FrameSource,
    Q: PointerSink,
    K: KeyboardSink,
    Z: Sleeper,
> PanelDriver<G, C, I, F, Q, K, Z> {
    /// One step, and the wait after it where it goes on. A run without a bound is
    /// turns until one fails or says to stop, and then [`PanelDriver::finish`].
    pub fn turn<X: XrSession<G::Size, G::Pose>>(&mut self, session: &mut X) -> (r: Result<
        Turn,
        Error,
    >)
        ensures
            exists|eff: StepEffect<G::Size, G::Pose, G::Point>|
                {
                    &&& #[trigger] ran_by(
                        *old(self),
                        *final(self),
                        *old(session),
                        *final(session),
                        seq![eff],
                    )
                    &&& match r {
                        Ok(Turn::Again) => goes_on(eff),
                        Ok(Turn::Stop) => eff.outcome is Ok && eff.outcome->Ok_0.stopping,
                        Err(e) => eff.outcome == Err::<StepOutcome<G::Point>, ErrorView>(e@),
                    }
                },
    {
        let outcome = self.step(session);
        let ghost stepped_to = *self;
        let ghost eff = choose|eff: StepEffect<G::Size, G::Pose, G::Point>| #[trigger]
            stepped_by(*old(self), *self, *old(session), *session, eff) && eff.outcome
                == step_view(outcome);
        let r = match outcome {
            Ok(done) => {
                if done.stopping {
                    Ok(Turn::Stop)
                } else {
                    self.wiring.sleeper.sleep_millis(self.config.step_interval_millis);
                    Ok(Turn::Again)
                }
            },
            Err(e) => Err(e),
        };
        proof {
            lemma_ran_none(*old(self), *old(session));
            lemma_ran_more(
                *old(self),
                *old(self),
                stepped_to,
                *self,
                *old(session),
                *old(session),
                *session,
                Seq::empty(),
                eff,
            );
            assert(Seq::<StepEffect<G::Size, G::Pose, G::Point>>::empty().push(eff) =~= seq![eff]);
        }
        r
    }

    /// Ends the session after a run, on every path: the run's own error is told
    /// before that of ending.
    pub fn finish<X: XrSession<G::Size, G::Pose>>(
        looped: Result<(), Error>,
        session: &mut X,
    ) -> (r: Result<(), Error>)
        ensures
            exists|ended: Result<(), ErrorView>|
                {
                    &&& final(session).asked() == old(session).asked().push(
                        #[trigger] end_call(ended),
                    )
                    &&& done_view(r) == with_end(done_view(looped), ended)
                },
            looped is Err ==> r == looped,
    {
        let ended = session.end();
        assert(session.asked() == old(session).asked().push(end_call(done_view(ended))));
        match looped {
            Err(e) => Err(e),
            Ok(_) => ended,
        }
    }

    /// Steps until the session stops, at most `steps` times, with a wait after each
    /// step that goes on; then ends the session, on every path. Tells how many steps
    /// it took.
    pub fn run_for_at_most<X: XrSession<G::Size, G::Pose>>(
        &mut self,
        session: &mut X,
        steps: usize,
    ) -> (r: Result<usize, Error>)
        ensures
            exists|
                taken: Seq<StepEffect<G::Size, G::Pose, G::Point>>,
                before_end: X,
                ended: Result<(), ErrorView>,
            |
                {
                    &&& #[trigger] ran_by(
                        *old(self),
                        *final(self),
                        *old(session),
                        before_end,
                        taken,
                    )
                    &&& taken.len() <= steps
                    &&& (forall|i: int| 0 <= i < taken.len() ==> goes_on(#[trigger] taken[i]))
                        ==> taken.len() == steps
                    &&& final(session).asked() == before_end.asked().push(
                        #[trigger] end_call(ended),
                    )
                    &&& count_view(r) == with_end(bounded_result(taken, steps), ended)
                },
    {
        let ghost mut taken: Seq<StepEffect<G::Size, G::Pose, G::Point>> = Seq::empty();
        let mut count: usize = 0;
        let mut looped: Option<Result<usize, Error>> = None;
        proof {
            lemma_ran_none(*old(self), *old(session));
        }
        while count < steps && looped.is_none()
            invariant
                count <= steps,
                ran_by(*old(self), *self, *old(session), *session, taken),
                looped is None ==> taken.len() == count && forall|i: int|
                    0 <= i < taken.len() ==> goes_on(#[trigger] taken[i]),
                looped is Some ==> {
                    &&& 0 < taken.len() <= steps
                    &&& !goes_on(taken.last())
                    &&& count_view(looped->0) == bounded_result(taken, steps)
                },
            decreases steps - count + if looped is None {
                1int
            } else {
                0int
            },
        {
            let ghost d1 = *self;
            let ghost s1 = *session;
            let outcome = self.step(session);
            let ghost stepped_to = *self;
            let ghost eff = choose|eff: StepEffect<G::Size, G::Pose, G::Point>| #[trigger]
                stepped_by(d1, *self, s1, *session, eff) && eff.outcome == step_view(outcome);
            let ghost more = taken.push(eff);
            assert(more.last() == eff);
            match outcome {
                Ok(done) => {
                    if done.stopping {
                        looped = Some(Ok(count + 1));
                    } else {
                        self.wiring.sleeper.sleep_millis(self.config.step_interval_millis);
                        count = count + 1;
                    }
                },
                Err(e) => {
                    looped = Some(Err(e));
                },
            }
            proof {
                lemma_ran_more(
                    *old(self),
                    d1,
                    stepped_to,
                    *self,
                    *old(session),
                    s1,
                    *session,
                    taken,
                    eff,
                );
                taken = more;
            }
        }
        let looped = match looped {
            Some(r) => r,
            None => Err(step_budget_exhausted(steps)),
        };
        proof {
            if taken.len() > 0 && !goes_on(taken.last()) {
                assert(!goes_on(taken[taken.len() - 1]));
            }
            if taken.len() > 0 && goes_on(taken.last()) {
                assert(goes_on(taken[taken.len() - 1]));
            }
            assert(count_view(looped) == bounded_result(taken, steps));
        }
        let ghost before_end = *session;
        let ended = session.end();
        assert(session.asked() == before_end.asked().push(end_call(done_view(ended))));
        assert(ran_by(*old(self), *self, *old(session), before_end, taken));
        match looped {
            Err(e) => Err(e),
            Ok(n) => match ended {
                Ok(_) => Ok(n),
                Err(e) => Err(e),
            },
        }
    }
}

/// A key, by its evdev number.
pub fn keycode(raw: u32) -> (r: Keycode)
    ensures
        r == Keycode(raw),
{
    Keycode(raw)
}

/// The error of a session that did not stop in time.
pub open spec fn budget_error(steps: usize) -> ErrorView {
    plain_error(
        ErrorCode::Internal,
        "the session did not reach a stopping state within the step budget"@,
    ).with("steps"@, DetailView::Int(steps as i64 as int))
}

/// The error of a session that did not stop in time.
pub fn step_budget_exhausted(steps: usize) -> (r: Error)
    ensures
        r@ == budget_error(steps),
{
    Error::new(
        ErrorCode::Internal,
        "the session did not reach a stopping state within the step budget",
        TraceId::unattributed(),
    ).with_detail("steps", steps as i64)
}

} // verus!
