//! The vocabulary of a session with a head-mounted display.

use vstd::prelude::*;

use crate::error::{done_view, Error, ErrorView};
use crate::frame::{Frame, FrameView};
use crate::input::{ButtonState, Keycode};
use crate::panel::grab::ControllerId;
use crate::panel::{Panel, PanelView};
use crate::scope::{Background, V1_PANEL_COUNT};

pub mod testing;

verus! {

/// How far a session has come.
#[derive(Debug, Clone, Copy, PartialEq, Eq, Hash, Structural)]
pub enum SessionState {
    Idle,
    Running,
    Stopping,
}

/// Whether a button of a hand went down or up.
#[derive(Debug, Clone, Copy, PartialEq, Eq, Hash, Structural)]
pub enum PressState {
    Pressed,
    Released,
}

impl PressState {
    /// The same on the side of the Linux display.
    pub open spec fn as_input(self) -> ButtonState {
        match self {
            PressState::Pressed => ButtonState::Pressed,
            PressState::Released => ButtonState::Released,
        }
    }

    /// The same on the side of the Linux display.
    pub fn to_input_state(self) -> (r: ButtonState)
        ensures
            r == self.as_input(),
    {
        match self {
            PressState::Pressed => ButtonState::Pressed,
            PressState::Released => ButtonState::Released,
        }
    }
}

/// What happened in a session.
#[derive(Debug, Clone, Copy, PartialEq)]
pub enum XrEvent<P> {
    StateChanged(SessionState),
    ControllerPose { controller: ControllerId, pose: P },
    GrabButton { controller: ControllerId, state: PressState },
    PointerButton { controller: ControllerId, state: PressState },
    Key { keycode: Keycode, state: PressState },
}

/// What was asked of a session, and what came of it.
pub enum SessionCall<S, P> {
    Polled(Result<Seq<XrEvent<P>>, ErrorView>),
    Submitted { frame: FrameView, panel: PanelView<S, P>, outcome: Result<(), ErrorView> },
    Ended(Result<(), ErrorView>),
}

/// What came of a poll.
pub open spec fn poll_view<P>(r: Result<Vec<XrEvent<P>>, Error>) -> Result<
    Seq<XrEvent<P>>,
    ErrorView,
> {
    match r {
        Ok(events) => Ok(events@),
        Err(e) => Err(e@),
    }
}

/// A session with a head-mounted display.
pub trait XrSession<S, P> {
    /// What was asked of the session so far, in order.
    open spec fn asked(&self) -> Seq<SessionCall<S, P>> {
        arbitrary()
    }

    /// Whether the session shows frames.
    open spec fn presents(&self) -> bool {
        arbitrary()
    }

    fn poll_events(&mut self) -> (r: Result<Vec<XrEvent<P>>, Error>)
        ensures
            final(self).asked() == old(self).asked().push(SessionCall::Polled(poll_view(r))),
            final(self).presents() == old(self).presents(),
    ;

    fn presents_frames(&self) -> (r: bool)
        ensures
            r == self.presents(),
    ;

    fn submit_frame(&mut self, frame: &Frame, panel: &Panel<S, P>) -> (r: Result<(), Error>)
        ensures
            final(self).asked() == old(self).asked().push(
                SessionCall::Submitted { frame: frame@, panel: panel@, outcome: done_view(r) },
            ),
            final(self).presents() == old(self).presents(),
    ;

    fn end(&mut self) -> (r: Result<(), Error>)
        ensures
            final(self).asked() == old(self).asked().push(SessionCall::Ended(done_view(r))),
            final(self).presents() == old(self).presents(),
    ;
}

/// Waits for whole milliseconds.
pub trait Sleeper {
    /// The waits so far, in order.
    open spec fn slept(&self) -> Seq<u64> {
        arbitrary()
    }

    fn sleep_millis(&mut self, millis: u64)
        ensures
            final(self).slept() == old(self).slept().push(millis),
    ;
}

/// What a session is opened with.
#[derive(Debug, Clone, Copy, PartialEq)]
pub struct SessionConfig<S, P> {
    pub panel: Panel<S, P>,
    pub background: Background,
}

impl<S, P> SessionConfig<S, P> {
    /// The session of one panel, on black.
    pub fn for_panel(panel: Panel<S, P>) -> (r: Self)
        ensures
            r.panel@ == panel@,
            r.background == Background::Black,
    {
        SessionConfig { panel, background: Background::Black }
    }
}

/// What a frame is composed of: the background, and the panel before it.
#[derive(Debug, Clone, Copy, PartialEq, Eq, Structural)]
pub struct CompositionPlan {
    pub background: Background,
    pub panel_layers: u8,
}

impl CompositionPlan {
    /// The composition of every frame of a session.
    pub open spec fn of(background: Background) -> Self {
        CompositionPlan { background, panel_layers: V1_PANEL_COUNT }
    }

    /// The composition of a frame.
    pub fn for_session<S, P>(config: &SessionConfig<S, P>) -> (r: Self)
        ensures
            r == CompositionPlan::of(config.background),
    {
        CompositionPlan { background: config.background, panel_layers: V1_PANEL_COUNT }
    }

    /// Whether the background is black and lets nothing through.
    pub fn background_is_opaque_black(&self) -> (r: bool)
        ensures
            r,
    {
        let parts = self.background.clear_color_parts();
        parts.0 == 0 && parts.1 == 0 && parts.2 == 0 && parts.3 == 1
    }

    /// How many layers show a panel.
    pub fn panel_layer_count(&self) -> (r: u8)
        ensures
            r == self.panel_layers,
    {
        self.panel_layers
    }
}

} // verus!
