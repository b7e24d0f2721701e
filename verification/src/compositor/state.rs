//! What the compositor remembers, and what it decides when something happens: the
//! windows, the pointer's target, the keys that were delivered, and the journal.

use vstd::prelude::*;

use crate::compositor::buffer::{
    borrowed_name, shm_import, ClientBufferKind, ClientTextureImporter, DmabufHandoff, ImportView,
    ShmBufferView,
};
use crate::compositor::journal::{failure_text, wrote, Journal};
use crate::compositor::keyboard::{keymap_number, to_xkb};
use crate::compositor::keys::{after_key, DeliveredKeys};
use crate::compositor::pointer::{
    button_number, evdev_button_code, event_time, event_time_ms, PointerDelivery,
};
use crate::compositor::window::{
    atlas_point_of, first_match, handed_out, next_edge, no_match, plane_resolution_of,
    position_of, rect_numbers, AtlasPoint, AtlasRect, WindowId, WindowRegistry, WindowView,
};
use crate::error::{done_view, plain_error, DetailView, Error, ErrorCode, ErrorView};
use crate::id::{IdGen, IdView};
use crate::input::{ButtonState, KeyEvent, PointerEvent, PointerEventKind};
use crate::log::{Level, LineView, LogSink};
use crate::panel::cursor::{cursor_at, resolve_cursor, to_pixels, PixelPoint, PointerHold};
use crate::panel::{Geometry, PanelPose, PanelResolution, PanelView};
use crate::text::{int_text, push_decimal, push_int};
use crate::time::Clock;

pub mod laws;

verus! {

/// The size that a new window is asked to have.
pub const DEFAULT_WINDOW_WIDTH_PX: i32 = 1280;

/// The size that a new window is asked to have.
pub const DEFAULT_WINDOW_HEIGHT_PX: i32 = 720;

/// The width of the gutter between two places on the atlas.
pub const DEFAULT_ATLAS_GUTTER_PX: i32 = 64;

/// A motion that the seat's pointer is to make. Without an origin it leaves every
/// window.
#[derive(Debug, Clone, Copy, PartialEq, Eq, Structural)]
pub struct MotionOrder {
    /// Where the window under the pointer begins.
    pub origin: Option<AtlasPoint>,
    /// Where the pointer goes.
    pub location: AtlasPoint,
    pub time_ms: u32,
}

/// What the seat's pointer is to do with an event.
#[derive(Debug)]
pub enum PointerOrder {
    /// Nothing: the event was delivered before.
    Duplicate,
    /// Move over a window.
    Motion { window: WindowId, order: MotionOrder },
    /// Press or release a button.
    Button { code: u32, state: ButtonState, time_ms: u32 },
}

/// What the seat's keyboard is to do with an event.
#[derive(Debug, Clone, Copy, PartialEq, Eq, Structural)]
pub enum KeyOrder {
    /// Nothing: the event was delivered before.
    Duplicate,
    /// Press or release a key.
    Press { xkb: u32, state: ButtonState, time_ms: u32 },
}

/// The error of a window that nobody tracks.
pub open spec fn untracked_error(window: Seq<char>, trace: Option<IdView>) -> ErrorView {
    ErrorView {
        trace_id: trace,
        ..plain_error(ErrorCode::InvalidArgument, "no such window is being tracked"@)
    }.with("window"@, DetailView::Text(window))
}

/// Why a window is not placed: there is no plane for it, or its size has no resolution.
pub open spec fn placing_refusal<S, P>(
    plane: Result<(S, PanelPose<P>), Error>,
    size_px: (i32, i32),
) -> Option<ErrorView> {
    match plane {
        Err(e) => Some(e@),
        Ok(_) => match plane_resolution_of(size_px.0 as int, size_px.1 as int) {
            Err(e) => Some(e),
            Ok(_) => None,
        },
    }
}

/// The motion to a pixel of a window.
pub open spec fn motion_to(rect: AtlasRect, local: PixelPoint, time_ms: u32) -> MotionOrder {
    MotionOrder {
        origin: Some(AtlasPoint { x: rect.x as i64, y: rect.y as i64 }),
        location: AtlasPoint { x: (rect.x + local.x) as i64, y: (rect.y + local.y) as i64 },
        time_ms,
    }
}

/// The motion that leaves every window.
pub open spec fn motion_away(time_ms: u32) -> MotionOrder {
    MotionOrder { origin: None, location: AtlasPoint { x: 0, y: 0 }, time_ms }
}

/// What is said of a buffer that was handed over.
pub open spec fn handoff_text(kind: ClientBufferKind, window: Seq<char>) -> Seq<char> {
    "handed a "@ + kind.name() + " buffer of window "@ + window + " to the importer"@
}

/// What is said of a buffer that was not taken, before the reason.
pub open spec fn handoff_attempt(kind: ClientBufferKind, window: Seq<char>) -> Seq<char> {
    "handing a "@ + kind.name() + " buffer of window "@ + window + " to the importer"@
}

/// Whether what is said fits what became of a buffer.
pub open spec fn handoff_noted<C: Clock>(
    clock: C,
    before: Seq<LineView>,
    after: Seq<LineView>,
    trace: Option<IdView>,
    window: Seq<char>,
    kind: ClientBufferKind,
    outcome: Result<(), ErrorView>,
) -> bool {
    match outcome {
        Ok(_) => wrote(clock, before, after, Level::Info, trace, handoff_text(kind, window)),
        Err(e) => wrote(
            clock,
            before,
            after,
            Level::Error,
            trace,
            failure_text(handoff_attempt(kind, window), e.message),
        ),
    }
}

/// What is said of a window that is now tracked.
pub open spec fn tracking_text(
    window: Seq<char>,
    rect: AtlasRect,
    world: Seq<char>,
) -> Seq<char> {
    "tracking toplevel "@ + window + " at atlas ("@ + int_text(rect.x as int) + ","@ + int_text(
        rect.y as int,
    ) + ") and world ("@ + world + ")"@
}

/// Three texts, one after the other.
fn joined(a: &str, b: &str, c: &str) -> (r: String)
    ensures
        r@ == a@ + b@ + c@,
{
    let mut out = a.to_owned();
    out.append(b);
    out.append(c);
    assert(out@ =~= a@ + b@ + c@);
    out
}

/// What the compositor remembers.
pub struct CompositorCore<
    H,
    G: Geometry,
    C: Clock,
    L: LogSink,
    I: IdGen,
    M: ClientTextureImporter,
> {
    windows: WindowRegistry<H, G::Size, G::Pose>,
    importer: M,
    ids: I,
    journal: Journal<C, L>,
    default_window_size: (i32, i32),
    pointer_target: Option<WindowId>,
    delivered: DeliveredKeys,
    running: bool,
}

impl<
    H,
    G: Geometry,
    C: Clock,
    L: LogSink,
    I: IdGen,
    M: ClientTextureImporter,
> CompositorCore<H, G, C, L, I, M> {
    /// The windows.
    pub closed spec fn shown(&self) -> Seq<WindowView<H, G::Size, G::Pose>> {
        self.windows@
    }

    /// The windows, with the places given away.
    pub closed spec fn registry(&self) -> WindowRegistry<H, G::Size, G::Pose> {
        self.windows
    }

    /// The window that the pointer is over.
    pub closed spec fn target(&self) -> Option<IdView> {
        match self.pointer_target {
            Some(w) => Some(w@),
            None => None,
        }
    }

    /// The keys that were delivered.
    pub closed spec fn keys(&self) -> Seq<Seq<char>> {
        self.delivered@
    }

    /// The lines of the journal.
    pub closed spec fn lines(&self) -> Seq<LineView> {
        self.journal.lines()
    }

    /// What says the time of every line.
    pub closed spec fn clock(&self) -> C {
        self.journal.clock()
    }

    /// The trace of the journal.
    pub closed spec fn trace(&self) -> Option<IdView> {
        self.journal.trace()
    }

    /// The buffers that were handed over.
    pub closed spec fn imports(&self) -> Seq<ImportView> {
        self.importer.imports()
    }

    /// The identifiers that were drawn.
    pub closed spec fn drawn(&self) -> Seq<Result<IdView, ErrorView>> {
        self.ids.drawn()
    }

    /// Whether the compositor goes on.
    pub closed spec fn goes_on(&self) -> bool {
        self.running
    }

    /// The size that a new window is asked to have.
    pub closed spec fn window_size(&self) -> (i32, i32) {
        self.default_window_size
    }

    /// Whether nothing but the journal differs.
    pub open spec fn same_but_lines(&self, other: &Self) -> bool {
        &&& self.registry() == other.registry()
        &&& self.shown() == other.shown()
        &&& self.target() == other.target()
        &&& self.keys() == other.keys()
        &&& self.trace() == other.trace()
        &&& self.clock() == other.clock()
        &&& self.imports() == other.imports()
        &&& self.drawn() == other.drawn()
        &&& self.goes_on() == other.goes_on()
        &&& self.window_size() == other.window_size()
    }

    /// Whether both are set up alike: the same trace, the same size and gutter of windows, and
    /// both running or both not.
    pub open spec fn set_up_as(&self, other: &Self) -> bool {
        &&& self.trace() == other.trace()
        &&& self.clock() == other.clock()
        &&& self.goes_on() == other.goes_on()
        &&& self.window_size() == other.window_size()
        &&& self.registry().gutter() == other.registry().gutter()
    }

    /// Whether exactly a window's buffer in shared memory was handed over, with the given
    /// outcome.
    pub open spec fn handed_shm(
        &self,
        after: &Self,
        view: ShmBufferView<'_>,
        window: IdView,
        outcome: Result<(), ErrorView>,
    ) -> bool {
        &&& after.imports() == self.imports().push(shm_import(window, view, outcome))
        &&& handoff_noted(
            self.clock(),
            self.lines(),
            after.lines(),
            self.trace(),
            window.text,
            ClientBufferKind::Shm,
            outcome,
        )
    }

    /// Whether exactly a window's buffer of the graphics device was handed over, with the
    /// given outcome.
    pub open spec fn handed_dmabuf(
        &self,
        after: &Self,
        handoff: DmabufHandoff,
        window: IdView,
        outcome: Result<(), ErrorView>,
    ) -> bool {
        &&& after.imports() == self.imports().push(dmabuf_import(Some(window), handoff, outcome))
        &&& handoff_noted(
            self.clock(),
            self.lines(),
            after.lines(),
            self.trace(),
            window.text,
            ClientBufferKind::Dmabuf,
            outcome,
        )
    }

    /// A compositor without windows, that goes on.
    pub fn new(
        journal: Journal<C, L>,
        ids: I,
        importer: M,
        atlas_gutter_px: i32,
        default_window_size: (i32, i32),
    ) -> (r: Self)
        ensures
            r.shown().len() == 0,
            r.registry().placed() == 0,
            r.registry().edge() == 0,
            r.registry().gutter() == atlas_gutter_px,
            r.registry().laid_out(),
            r.target() is None,
            r.keys().len() == 0,
            r.lines() == journal.lines(),
            r.trace() == journal.trace(),
            r.clock() == journal.clock(),
            r.imports() == importer.imports(),
            r.drawn() == ids.drawn(),
            r.goes_on(),
            r.window_size() == default_window_size,
    {
        CompositorCore {
            windows: WindowRegistry::new(atlas_gutter_px),
            importer,
            ids,
            journal,
            default_window_size,
            pointer_target: None,
            delivered: DeliveredKeys::new(),
            running: true,
        }
    }

    /// The windows.
    pub fn windows(&self) -> (r: &WindowRegistry<H, G::Size, G::Pose>)
        ensures
            *r == self.registry(),
            r@ == self.shown(),
    {
        &self.windows
    }

    /// The windows, to be moved about.
    pub fn windows_mut(&mut self) -> (r: &mut WindowRegistry<H, G::Size, G::Pose>)
        ensures
            *r == old(self).registry(),
            final(self).registry() == *final(r),
            final(self).shown() == final(r)@,
            final(self).target() == old(self).target(),
            final(self).keys() == old(self).keys(),
            final(self).lines() == old(self).lines(),
            final(self).trace() == old(self).trace(),
            final(self).clock() == old(self).clock(),
            final(self).imports() == old(self).imports(),
            final(self).drawn() == old(self).drawn(),
            final(self).goes_on() == old(self).goes_on(),
            final(self).window_size() == old(self).window_size(),
    {
        &mut self.windows
    }

    /// The journal.
    pub fn journal(&self) -> (r: &Journal<C, L>)
        ensures
            r.lines() == self.lines(),
            r.trace() == self.trace(),
            r.clock() == self.clock(),
    {
        &self.journal
    }

    /// What takes the buffers.
    pub fn importer(&self) -> (r: &M)
        ensures
            r.imports() == self.imports(),
    {
        &self.importer
    }

    /// The size that a new window is asked to have.
    pub fn default_window_size(&self) -> (r: (i32, i32))
        ensures
            r == self.window_size(),
    {
        self.default_window_size
    }

    /// Whether the compositor goes on.
    pub fn is_running(&self) -> (r: bool)
        ensures
            r == self.goes_on(),
    {
        self.running
    }

    /// Ends the run.
    pub fn stop(&mut self)
        ensures
            !final(self).goes_on(),
            final(self).registry() == old(self).registry(),
            final(self).shown() == old(self).shown(),
            final(self).target() == old(self).target(),
            final(self).keys() == old(self).keys(),
            final(self).lines() == old(self).lines(),
            final(self).trace() == old(self).trace(),
            final(self).clock() == old(self).clock(),
            final(self).imports() == old(self).imports(),
            final(self).drawn() == old(self).drawn(),
            final(self).window_size() == old(self).window_size(),
    {
        self.running = false;
    }

    /// The window that the pointer is over.
    pub fn pointer_target(&self) -> (r: Option<&WindowId>)
        ensures
            borrowed_name(r) == self.target(),
    {
        match &self.pointer_target {
            Some(w) => Some(w),
            None => None,
        }
    }

    /// Makes a window the one that the pointer is over, or none.
    pub fn set_pointer_target(&mut self, window: Option<WindowId>)
        ensures
            final(self).target() == (match window {
                Some(w) => Some(w@),
                None => None,
            }),
            final(self).registry() == old(self).registry(),
            final(self).shown() == old(self).shown(),
            final(self).keys() == old(self).keys(),
            final(self).lines() == old(self).lines(),
            final(self).set_up_as(old(self)),
            final(self).imports() == old(self).imports(),
            final(self).drawn() == old(self).drawn(),
    {
        self.pointer_target = window;
    }

    /// Writes a line; a line that cannot be written stops nothing.
    pub fn say(&mut self, level: Level, msg: &str)
        ensures
            final(self).same_but_lines(old(self)),
            wrote(
                old(self).clock(),
                old(self).lines(),
                final(self).lines(),
                level,
                old(self).trace(),
                msg@,
            ),
    {
        let _ = self.journal.emit(level, msg);
    }

    /// Writes what failed and why; a line that cannot be written stops nothing.
    fn say_failure(&mut self, what: &str, cause: &Error)
        ensures
            final(self).same_but_lines(old(self)),
            wrote(
                old(self).clock(),
                old(self).lines(),
                final(self).lines(),
                Level::Error,
                old(self).trace(),
                failure_text(what@, cause@.message),
            ),
    {
        let _ = self.journal.note_failure(what, cause);
    }

    fn untracked(&self, window: &WindowId) -> (r: Error)
        ensures
            r@ == untracked_error(window@.text, self.trace()),
    {
        Error::new(
            ErrorCode::InvalidArgument,
            "no such window is being tracked",
            self.journal.trace_id().clone(),
        ).with_detail("window", window.as_str())
    }

    /// The error of a seat without a pointer.
    pub fn no_pointer(&self) -> (r: Error)
        ensures
            r@ == (ErrorView {
                trace_id: self.trace(),
                ..plain_error(ErrorCode::CapabilityUnavailable, "schorl's seat has no pointer"@)
            }),
    {
        Error::new(
            ErrorCode::CapabilityUnavailable,
            "schorl's seat has no pointer",
            self.journal.trace_id().clone(),
        )
    }

    /// The error of a seat without a keyboard.
    pub fn no_keyboard(&self) -> (r: Error)
        ensures
            r@ == (ErrorView {
                trace_id: self.trace(),
                ..plain_error(ErrorCode::CapabilityUnavailable, "schorl's seat has no keyboard"@)
            }),
    {
        Error::new(
            ErrorCode::CapabilityUnavailable,
            "schorl's seat has no keyboard",
            self.journal.trace_id().clone(),
        )
    }

    /// The error of a seat that got no keyboard.
    pub fn keyboard_not_made(&self, cause: &str) -> (r: Error)
        ensures
            r@ == (ErrorView {
                trace_id: self.trace(),
                ..plain_error(
                    ErrorCode::CapabilityUnavailable,
                    "could not create the keyboard for schorl's own seat"@,
                )
            }).because(cause@),
    {
        Error::new(
            ErrorCode::CapabilityUnavailable,
            "could not create the keyboard for schorl's own seat",
            self.journal.trace_id().clone(),
        ).caused_by(cause)
    }

    /// Points at a pixel of a window, which becomes the pointer's target.
    pub fn point_at_local(&mut self, window: &WindowId, local: PixelPoint, time_ms: u32) -> (r:
        Result<MotionOrder, Error>)
        ensures
            final(self).registry() == old(self).registry(),
            final(self).shown() == old(self).shown(),
            final(self).keys() == old(self).keys(),
            final(self).lines() == old(self).lines(),
            final(self).set_up_as(old(self)),
            final(self).imports() == old(self).imports(),
            final(self).drawn() == old(self).drawn(),
            ({
                let at = position_of(old(self).shown(), window@);
                if at < old(self).shown().len() {
                    &&& r == Ok::<MotionOrder, Error>(
                        motion_to(old(self).shown()[at as int].rect, local, time_ms),
                    )
                    &&& final(self).target() == Some(window@)
                } else {
                    &&& r is Err
                    &&& r->Err_0@ == untracked_error(window@.text, old(self).trace())
                    &&& final(self).target() == old(self).target()
                }
            }),
    {
        let rect = match self.windows.get(window) {
            Some(known) => known.rect(),
            None => return Err(self.untracked(window)),
        };
        self.pointer_target = Some(window.clone());
        Ok(
            MotionOrder {
                origin: Some(AtlasPoint { x: rect.x as i64, y: rect.y as i64 }),
                location: atlas_point_of(rect, local),
                time_ms,
            },
        )
    }

    /// Aims a hand at a window: the pointer goes to the pixel under the hand, or leaves
    /// every window where the hand is beyond the window's edge and does not hold.
    pub fn aim_at(
        &mut self,
        window: &WindowId,
        hand: G::Pose,
        hold: PointerHold,
        time_ms: u32,
    ) -> (r: Result<(MotionOrder, PointerDelivery), Error>)
        ensures
            final(self).registry() == old(self).registry(),
            final(self).shown() == old(self).shown(),
            final(self).keys() == old(self).keys(),
            final(self).lines() == old(self).lines(),
            final(self).set_up_as(old(self)),
            final(self).imports() == old(self).imports(),
            final(self).drawn() == old(self).drawn(),
            ({
                let at = position_of(old(self).shown(), window@);
                if at < old(self).shown().len() {
                    let w = old(self).shown()[at as int];
                    match cursor_at::<G>(w.plane.size, w.plane.pose.pose, hand, hold).at() {
                        None => {
                            &&& r is Ok
                            &&& r->Ok_0.0 == motion_away(time_ms)
                            &&& r->Ok_0.1 is Left
                            &&& final(self).target() is None
                        },
                        Some(point) => {
                            let local = G::pixel(w.plane.size, w.plane.resolution, point);
                            &&& r is Ok
                            &&& r->Ok_0.0 == motion_to(w.rect, local, time_ms)
                            &&& r->Ok_0.1 is Moved
                            &&& r->Ok_0.1->window@ == window@
                            &&& r->Ok_0.1->local == local
                            &&& final(self).target() == Some(window@)
                        },
                    }
                } else {
                    &&& r is Err
                    &&& r->Err_0@ == untracked_error(window@.text, old(self).trace())
                    &&& final(self).target() == old(self).target()
                }
            }),
    {
        let local = match self.windows.get(window) {
            Some(known) => {
                let plane = known.plane();
                match resolve_cursor::<G>(plane, hand, hold).point() {
                    Some(point) => Some(to_pixels::<G>(plane, point)),
                    None => None,
                }
            },
            None => return Err(self.untracked(window)),
        };
        match local {
            None => {
                self.pointer_target = None;
                Ok(
                    (
                        MotionOrder { origin: None, location: AtlasPoint { x: 0, y: 0 }, time_ms },
                        PointerDelivery::Left,
                    ),
                )
            },
            Some(local) => match self.point_at_local(window, local, time_ms) {
                Ok(order) => Ok((order, PointerDelivery::Moved { window: window.clone(), local })),
                Err(e) => Err(e),
            },
        }
    }

    /// Decides what an event makes the seat's pointer do. A key that was delivered is
    /// ignored; another one counts as delivered even where the event then fails.
    pub fn deliver_pointer(&mut self, event: &PointerEvent) -> (r: Result<PointerOrder, Error>)
        ensures
            final(self).registry() == old(self).registry(),
            final(self).shown() == old(self).shown(),
            final(self).lines() == old(self).lines(),
            final(self).set_up_as(old(self)),
            final(self).imports() == old(self).imports(),
            final(self).drawn() == old(self).drawn(),
            final(self).keys() == after_key(old(self).keys(), event@.idempotency_key.text),
            final(self).target() == old(self).target(),
            if old(self).keys().contains(event@.idempotency_key.text) {
                r is Ok && r->Ok_0 is Duplicate
            } else {
                match event@.kind {
                    PointerEventKind::Button { button, state } => r == Ok::<PointerOrder, Error>(
                        PointerOrder::Button {
                            code: button_number(button),
                            state,
                            time_ms: event_time(event@.at) as u32,
                        },
                    ),
                    PointerEventKind::MotionAbsolute { x_px, y_px } => match old(self).target() {
                        None => {
                            &&& r is Err
                            &&& r->Err_0@ == (ErrorView {
                                trace_id: old(self).trace(),
                                ..plain_error(
                                    ErrorCode::InvalidArgument,
                                    "a pointer motion arrived before any window was aimed at"@,
                                )
                            })
                        },
                        Some(id) => {
                            let at = position_of(old(self).shown(), id);
                            if at < old(self).shown().len() {
                                &&& r is Ok
                                &&& r->Ok_0 is Motion
                                &&& r->Ok_0->window@ == id
                                &&& r->Ok_0->order == motion_to(
                                    old(self).shown()[at as int].rect,
                                    PixelPoint { x: x_px, y: y_px },
                                    event_time(event@.at) as u32,
                                )
                            } else {
                                r is Err && r->Err_0@ == untracked_error(
                                    id.text,
                                    old(self).trace(),
                                )
                            }
                        },
                    },
                }
            },
    {
        if !self.delivered.accept(event.idempotency_key.as_str()) {
            return Ok(PointerOrder::Duplicate);
        }
        let time_ms: u32 = event_time_ms(event.at);
        match event.kind {
            PointerEventKind::MotionAbsolute { x_px, y_px } => {
                let window = match &self.pointer_target {
                    Some(w) => w.clone(),
                    None => return Err(
                        Error::new(
                            ErrorCode::InvalidArgument,
                            "a pointer motion arrived before any window was aimed at",
                            self.journal.trace_id().clone(),
                        ),
                    ),
                };
                match self.point_at_local(&window, PixelPoint { x: x_px, y: y_px }, time_ms) {
                    Ok(order) => Ok(PointerOrder::Motion { window, order }),
                    Err(e) => Err(e),
                }
            },
            PointerEventKind::Button { button, state } => Ok(
                PointerOrder::Button { code: evdev_button_code(button), state, time_ms },
            ),
        }
    }

    /// Decides what an event makes the seat's keyboard do. A key that was delivered is
    /// ignored.
    pub fn deliver_key(&mut self, event: &KeyEvent) -> (r: KeyOrder)
        ensures
            final(self).registry() == old(self).registry(),
            final(self).shown() == old(self).shown(),
            final(self).lines() == old(self).lines(),
            final(self).set_up_as(old(self)),
            final(self).imports() == old(self).imports(),
            final(self).drawn() == old(self).drawn(),
            final(self).target() == old(self).target(),
            final(self).keys() == after_key(old(self).keys(), event@.idempotency_key.text),
            r == (if old(self).keys().contains(event@.idempotency_key.text) {
                KeyOrder::Duplicate
            } else {
                KeyOrder::Press {
                    xkb: keymap_number(event@.keycode) as u32,
                    state: event@.state,
                    time_ms: event_time(event@.at) as u32,
                }
            }),
    {
        if !self.delivered.accept(event.idempotency_key.as_str()) {
            return KeyOrder::Duplicate;
        }
        KeyOrder::Press {
            xkb: to_xkb(event.keycode),
            state: event.state,
            time_ms: event_time_ms(event.at),
        }
    }

    /// Whether the keyboard may go to a window, or to none: a window has to be tracked.
    pub fn check_keyboard_focus(&self, window: Option<&WindowId>) -> (r: Result<(), Error>)
        ensures
            match borrowed_name(window) {
                None => r is Ok,
                Some(id) => if position_of(self.shown(), id) < self.shown().len() {
                    r is Ok
                } else {
                    r is Err && r->Err_0@ == untracked_error(id.text, self.trace())
                },
            },
    {
        match window {
            None => Ok(()),
            Some(id) => match self.windows.get(id) {
                Some(_) => Ok(()),
                None => Err(self.untracked(id)),
            },
        }
    }

    /// A window submitted something to show: from now on it is mapped. Tells whether it
    /// was not before, so that it should have the keyboard.
    pub fn note_commit<F: Fn(&H) -> bool>(&mut self, is_this: F) -> (r: bool)
        requires
            forall|h: &H| call_requires(is_this, (h,)),
        ensures
            final(self).target() == old(self).target(),
            final(self).keys() == old(self).keys(),
            final(self).set_up_as(old(self)),
            final(self).registry().placed() == old(self).registry().placed(),
            final(self).registry().edge() == old(self).registry().edge(),
            old(self).registry().laid_out() ==> final(self).registry().laid_out(),
            final(self).drawn() == old(self).drawn(),
            final(self).imports() == old(self).imports(),
            ({
                ||| {
                    &&& no_match(old(self).shown(), is_this)
                    &&& !r
                    &&& final(self).shown() == old(self).shown()
                    &&& final(self).lines() == old(self).lines()
                }
                ||| exists|at: int|
                    {
                        let w = old(self).shown()[at];
                        &&& #[trigger] first_match(old(self).shown(), is_this, at)
                        &&& r == !w.mapped
                        &&& final(self).shown() == old(self).shown().update(
                            at,
                            WindowView { mapped: true, ..handed_out(old(self).shown(), at) },
                        )
                        &&& if r {
                            wrote(
                                old(self).clock(),
                                old(self).lines(),
                                final(self).lines(),
                                Level::Info,
                                old(self).trace(),
                                "window "@ + w.id.text + " is now mapped"@,
                            )
                        } else {
                            final(self).lines() == old(self).lines()
                        }
                    }
            }),
    {
        let name = match self.windows.find_mut(is_this) {
            Some(window) => {
                let first = !window.is_mapped();
                window.mark_mapped();
                if first {
                    Some(window.id().clone())
                } else {
                    None
                }
            },
            None => None,
        };
        match name {
            Some(id) => {
                let msg = joined("window ", id.as_str(), " is now mapped");
                self.say(Level::Info, msg.as_str());
                true
            },
            None => false,
        }
    }

    fn note_handoff(&mut self, window: &WindowId, kind: ClientBufferKind, outcome: Result<(), Error>)
        ensures
            final(self).same_but_lines(old(self)),
            handoff_noted(
                old(self).clock(),
                old(self).lines(),
                final(self).lines(),
                old(self).trace(),
                window@.text,
                kind,
                done_view(outcome),
            ),
    {
        match outcome {
            Ok(_) => {
                let mut msg = joined("handed a ", kind.as_str(), " buffer of window ");
                msg.append(window.as_str());
                msg.append(" to the importer");
                assert(msg@ =~= handoff_text(kind, window@.text));
                self.say(Level::Info, msg.as_str());
            },
            Err(e) => {
                let mut what = joined("handing a ", kind.as_str(), " buffer of window ");
                what.append(window.as_str());
                what.append(" to the importer");
                assert(what@ =~= handoff_attempt(kind, window@.text));
                self.say_failure(what.as_str(), &e);
            },
        }
    }

    fn name_where<F: Fn(&H) -> bool>(&self, is_this: F) -> (r: Option<WindowId>)
        requires
            forall|h: &H| call_requires(is_this, (h,)),
        ensures
            r matches Some(w) ==> exists|at: int|
                #[trigger] first_match(self.shown(), is_this, at) && w@ == self.shown()[at].id,
            r is None ==> no_match(self.shown(), is_this),
    {
        match self.windows.find(is_this) {
            Some(w) => {
                proof {
                    let at = choose|at: int|
                        #[trigger] first_match(self.windows@, is_this, at) && w@
                            == self.windows@[at];
                    assert(first_match(self.shown(), is_this, at));
                }
                Some(w.id().clone())
            },
            None => None,
        }
    }

    /// Hands a window's buffer in shared memory over. A surface that is no window's
    /// hands nothing over.
    pub fn hand_off_shm<F: Fn(&H) -> bool>(&mut self, is_this: F, view: ShmBufferView<'_>)
        requires
            forall|h: &H| call_requires(is_this, (h,)),
        ensures
            final(self).shown() == old(self).shown(),
            final(self).target() == old(self).target(),
            final(self).keys() == old(self).keys(),
            final(self).set_up_as(old(self)),
            final(self).registry() == old(self).registry(),
            final(self).drawn() == old(self).drawn(),
            ({
                ||| {
                    &&& no_match(old(self).shown(), is_this)
                    &&& final(self).imports() == old(self).imports()
                    &&& final(self).lines() == old(self).lines()
                }
                ||| exists|at: int, outcome: Result<(), ErrorView>|
                    #[trigger] first_match(old(self).shown(), is_this, at) && #[trigger] old(
                        self,
                    ).handed_shm(final(self), view, old(self).shown()[at].id, outcome)
            }),
    {
        if let Some(window) = self.name_where(is_this) {
            let outcome = self.importer.import_shm(&window, view);
            self.note_handoff(&window, ClientBufferKind::Shm, outcome);
            assert(old(self).handed_shm(self, view, window@, done_view(outcome)));
        }
    }

    /// Hands a window's buffer of the graphics device over.
    pub fn hand_off_dmabuf<F: Fn(&H) -> bool>(
        &mut self,
        is_this: F,
        handoff: DmabufHandoff,
        dmabuf: &M::Dmabuf,
    )
        requires
            forall|h: &H| call_requires(is_this, (h,)),
        ensures
            final(self).shown() == old(self).shown(),
            final(self).target() == old(self).target(),
            final(self).keys() == old(self).keys(),
            final(self).set_up_as(old(self)),
            final(self).registry() == old(self).registry(),
            final(self).drawn() == old(self).drawn(),
            ({
                ||| {
                    &&& no_match(old(self).shown(), is_this)
                    &&& final(self).imports() == old(self).imports()
                    &&& final(self).lines() == old(self).lines()
                }
                ||| exists|at: int, outcome: Result<(), ErrorView>|
                    #[trigger] first_match(old(self).shown(), is_this, at) && #[trigger] old(
                        self,
                    ).handed_dmabuf(final(self), handoff, old(self).shown()[at].id, outcome)
            }),
    {
        if let Some(window) = self.name_where(is_this) {
            let outcome = self.importer.import_dmabuf(Some(&window), handoff, dmabuf);
            self.note_handoff(&window, ClientBufferKind::Dmabuf, outcome);
            assert(old(self).handed_dmabuf(self, handoff, window@, done_view(outcome)));
        }
    }

    /// A window's buffer is of a kind that is not taken.
    pub fn note_unmanaged_buffer<F: Fn(&H) -> bool>(&mut self, is_this: F)
        requires
            forall|h: &H| call_requires(is_this, (h,)),
        ensures
            final(self).same_but_lines(old(self)),
            ({
                ||| no_match(old(self).shown(), is_this) && final(self).lines() == old(self).lines()
                ||| exists|at: int|
                    {
                        &&& #[trigger] first_match(old(self).shown(), is_this, at)
                        &&& wrote(
                            old(self).clock(),
                            old(self).lines(),
                            final(self).lines(),
                            Level::Warn,
                            old(self).trace(),
                            "window "@ + old(self).shown()[at].id.text
                                + " committed a buffer of a kind schorl does not accept yet"@,
                        )
                    }
            }),
    {
        if let Some(window) = self.name_where(is_this) {
            let msg = joined(
                "window ",
                window.as_str(),
                " committed a buffer of a kind schorl does not accept yet",
            );
            self.say(Level::Warn, msg.as_str());
        }
    }

    /// A window's buffer in shared memory could not be read.
    pub fn note_unreadable_buffer<F: Fn(&H) -> bool>(&mut self, is_this: F, reason: &str)
        requires
            forall|h: &H| call_requires(is_this, (h,)),
        ensures
            final(self).same_but_lines(old(self)),
            ({
                ||| no_match(old(self).shown(), is_this) && final(self).lines() == old(self).lines()
                ||| exists|at: int|
                    {
                        &&& #[trigger] first_match(old(self).shown(), is_this, at)
                        &&& wrote(
                            old(self).clock(),
                            old(self).lines(),
                            final(self).lines(),
                            Level::Error,
                            old(self).trace(),
                            failure_text(
                                handoff_attempt(
                                    ClientBufferKind::Shm,
                                    old(self).shown()[at].id.text,
                                ),
                                "the client's shm pool could not be read"@,
                            ),
                        )
                    }
            }),
    {
        if let Some(window) = self.name_where(is_this) {
            let envelope = Error::new(
                ErrorCode::HostRefused,
                "the client's shm pool could not be read",
                self.journal.trace_id().clone(),
            ).with_detail("reason", reason);
            self.note_handoff(&window, ClientBufferKind::Shm, Err(envelope));
        }
    }

    /// A client asks whether a buffer of the graphics device will be taken.
    pub fn dmabuf_imported(&mut self, handoff: DmabufHandoff, dmabuf: &M::Dmabuf) -> (r: bool)
        ensures
            final(self).shown() == old(self).shown(),
            final(self).target() == old(self).target(),
            final(self).keys() == old(self).keys(),
            final(self).set_up_as(old(self)),
            final(self).registry() == old(self).registry(),
            final(self).drawn() == old(self).drawn(),
            exists|outcome: Result<(), ErrorView>|
                {
                    &&& final(self).imports() == old(self).imports().push(
                        #[trigger] dmabuf_import(None, handoff, outcome),
                    )
                    &&& r == (outcome is Ok)
                    &&& match outcome {
                        Ok(_) => wrote(
                            old(self).clock(),
                            old(self).lines(),
                            final(self).lines(),
                            Level::Info,
                            old(self).trace(),
                            "accepted a dmabuf ("@ + crate::text::decimal(
                                handoff.plane_count as nat,
                            ) + " planes) for handoff"@,
                        ),
                        Err(e) => wrote(
                            old(self).clock(),
                            old(self).lines(),
                            final(self).lines(),
                            Level::Error,
                            old(self).trace(),
                            failure_text("accepting a dmabuf"@, e.message),
                        ),
                    }
                },
    {
        let outcome = self.importer.import_dmabuf(None, handoff, dmabuf);
        assert(self.importer.imports() == old(self).importer.imports().push(
            dmabuf_import(None, handoff, done_view(outcome)),
        ));
        match outcome {
            Ok(_) => {
                let mut msg = "accepted a dmabuf (".to_owned();
                push_decimal(&mut msg, handoff.plane_count as u64);
                msg.append(" planes) for handoff");
                assert(msg@ =~= "accepted a dmabuf ("@ + crate::text::decimal(
                    handoff.plane_count as nat,
                ) + " planes) for handoff"@);
                self.say(Level::Info, msg.as_str());
                true
            },
            Err(e) => {
                self.say_failure("accepting a dmabuf", &e);
                false
            },
        }
    }

    /// A new window asks to be shown. It gets a name, whatever comes of it, and the next
    /// place; its plane comes from the ring, whose place is told as `world`.
    pub fn new_toplevel(
        &mut self,
        handle: H,
        plane: Result<(G::Size, PanelPose<G::Pose>), Error>,
        world: &str,
    )
        requires
            old(self).registry().has_room(old(self).window_size()),
        ensures
            final(self).target() == old(self).target(),
            final(self).keys() == old(self).keys(),
            final(self).imports() == old(self).imports(),
            final(self).set_up_as(old(self)),
            final(self).drawn() == old(self).drawn().push(final(self).drawn().last()),
            old(self).registry().laid_out() ==> final(self).registry().laid_out(),
            match final(self).drawn().last() {
                Err(e) => {
                    &&& final(self).shown() == old(self).shown()
                    &&& final(self).registry().placed() == old(self).registry().placed()
                    &&& final(self).registry().edge() == old(self).registry().edge()
                    &&& wrote(
                        old(self).clock(),
                        old(self).lines(),
                        final(self).lines(),
                        Level::Error,
                        old(self).trace(),
                        failure_text("issuing a window id"@, e.message),
                    )
                },
                Ok(id) => match placing_refusal(plane, old(self).window_size()) {
                    Some(e) => {
                        &&& final(self).shown() == old(self).shown()
                        &&& final(self).registry().placed() == old(self).registry().placed()
                        &&& final(self).registry().edge() == old(self).registry().edge()
                        &&& wrote(
                            old(self).clock(),
                            old(self).lines(),
                            final(self).lines(),
                            Level::Error,
                            old(self).trace(),
                            failure_text("placing a new toplevel"@, e.message),
                        )
                    },
                    None => {
                        let w = final(self).shown().last();
                        &&& final(self).shown() == old(self).shown().push(w)
                        &&& w.id == id
                        &&& w.handle == handle
                        &&& !w.mapped
                        &&& w.stamp == 0
                        &&& rect_numbers(w.rect) == (
                            old(self).registry().next_place(old(self).window_size().0 as int),
                            0int,
                            old(self).window_size().0 as int,
                            old(self).window_size().1 as int,
                        )
                        &&& w.plane == (PanelView {
                            size: plane->Ok_0.0,
                            resolution: PanelResolution {
                                width_px: old(self).window_size().0 as u32,
                                height_px: old(self).window_size().1 as u32,
                            },
                            pose: plane->Ok_0.1,
                        })
                        &&& final(self).registry().placed() == old(self).registry().placed() + 1
                        &&& final(self).registry().edge() == next_edge(
                            old(self).registry().edge(),
                            old(self).registry().next_place(old(self).window_size().0 as int),
                            old(self).window_size().0 as int,
                        )
                        &&& wrote(
                            old(self).clock(),
                            old(self).lines(),
                            final(self).lines(),
                            Level::Info,
                            old(self).trace(),
                            tracking_text(id.text, w.rect, world@),
                        )
                    },
                },
            },
    {
        let id = match self.ids.next_id() {
            Ok(id) => WindowId::new(id),
            Err(e) => {
                self.say_failure("issuing a window id", &e);
                return;
            },
        };
        let (plane_size, plane_pose) = match plane {
            Ok(found) => found,
            Err(e) => {
                self.say_failure("placing a new toplevel", &e);
                return;
            },
        };
        let name = id.clone();
        match self.windows.insert(id, handle, self.default_window_size, plane_size, plane_pose) {
            Ok(window) => {
                let rect = window.rect();
                let mut msg = joined("tracking toplevel ", name.as_str(), " at atlas (");
                push_int(&mut msg, rect.x as i64);
                msg.append(",");
                push_int(&mut msg, rect.y as i64);
                msg.append(") and world (");
                msg.append(world);
                msg.append(")");
                assert(msg@ =~= tracking_text(name@.text, rect, world@));
                self.say(Level::Info, msg.as_str());
            },
            Err(e) => {
                self.say_failure("placing a new toplevel", &e);
            },
        }
    }

    /// A window is gone: it is forgotten, and the pointer is no longer over it.
    pub fn toplevel_destroyed<F: Fn(&H) -> bool>(&mut self, is_this: F)
        requires
            forall|h: &H| call_requires(is_this, (h,)),
        ensures
            final(self).keys() == old(self).keys(),
            final(self).imports() == old(self).imports(),
            final(self).drawn() == old(self).drawn(),
            final(self).set_up_as(old(self)),
            final(self).registry().placed() == old(self).registry().placed(),
            final(self).registry().edge() == old(self).registry().edge(),
            old(self).registry().laid_out() ==> final(self).registry().laid_out(),
            ({
                ||| {
                    &&& no_match(old(self).shown(), is_this)
                    &&& final(self).shown() == old(self).shown()
                    &&& final(self).target() == old(self).target()
                    &&& final(self).lines() == old(self).lines()
                }
                ||| exists|at: int|
                    {
                        let id = old(self).shown()[at].id;
                        &&& #[trigger] first_match(old(self).shown(), is_this, at)
                        &&& final(self).shown() == old(self).shown().remove(at)
                        &&& final(self).target() == (if old(self).target() == Some(id) {
                            None
                        } else {
                            old(self).target()
                        })
                        &&& wrote(
                            old(self).clock(),
                            old(self).lines(),
                            final(self).lines(),
                            Level::Info,
                            old(self).trace(),
                            "window "@ + id.text + " is gone"@,
                        )
                    }
            }),
    {
        if let Some(window) = self.windows.remove(is_this) {
            let hit = match &self.pointer_target {
                Some(target) => target.same(window.id()),
                None => false,
            };
            if hit {
                self.pointer_target = None;
            }
            let msg = joined("window ", window.id().as_str(), " is gone");
            self.say(Level::Info, msg.as_str());
        }
    }

    /// The keyboard went to a surface, or to none. A surface that is no window's has no
    /// name.
    pub fn focus_changed<F: Fn(&H) -> bool>(&mut self, focused: bool, is_this: F)
        requires
            forall|h: &H| call_requires(is_this, (h,)),
        ensures
            final(self).same_but_lines(old(self)),
            ({
                ||| {
                    &&& !focused || no_match(old(self).shown(), is_this)
                    &&& wrote(
                        old(self).clock(),
                        old(self).lines(),
                        final(self).lines(),
                        Level::Info,
                        old(self).trace(),
                        "keyboard focus is now on "@ + "none"@,
                    )
                }
                ||| focused && exists|at: int|
                    {
                        &&& #[trigger] first_match(old(self).shown(), is_this, at)
                        &&& wrote(
                            old(self).clock(),
                            old(self).lines(),
                            final(self).lines(),
                            Level::Info,
                            old(self).trace(),
                            "keyboard focus is now on "@ + old(self).shown()[at].id.text,
                        )
                    }
            }),
    {
        let named = if focused {
            self.name_where(is_this)
        } else {
            None
        };
        let mut msg = "keyboard focus is now on ".to_owned();
        match &named {
            Some(window) => {
                msg.append(window.as_str());
            },
            None => {
                msg.append("none");
            },
        }
        self.say(Level::Info, msg.as_str());
    }
}

/// A buffer of the graphics device that was handed over.
pub open spec fn dmabuf_import(
    window: Option<IdView>,
    handoff: DmabufHandoff,
    outcome: Result<(), ErrorView>,
) -> ImportView {
    ImportView::Dmabuf { window, handoff, outcome }
}

} // verus!
