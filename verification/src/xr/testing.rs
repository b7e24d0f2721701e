//! A session that follows a script, and a sleeper that does not sleep.

use vstd::prelude::*;

use crate::error::{done_view, plain_error, Error, ErrorCode};
use crate::frame::Frame;
use crate::id::TraceId;
use crate::panel::Panel;
use crate::xr::{
    poll_view, SessionCall, SessionState, Sleeper, XrEvent, XrSession,
};

verus! {

/// A session whose events are written down beforehand.
pub struct ScriptedSession<S, P> {
    /// What the next poll brings.
    pub scripted_events: Vec<XrEvent<P>>,
    /// Whether the session shows frames.
    pub presents: bool,
    /// Whether polling fails.
    pub poll_error: bool,
    /// The poll that says that the session stops.
    pub stop_after_polls: Option<u64>,
    /// How often it was polled.
    pub polls: u64,
    /// How many frames were shown.
    pub submitted_frames: u64,
    /// How often it was ended.
    pub ended: u64,
    /// What was asked of it.
    pub log: Ghost<Seq<SessionCall<S, P>>>,
}

impl<S, P> Default for ScriptedSession<S, P> {
    fn default() -> (r: Self)
        ensures
            r.scripted_events@.len() == 0,
            r.presents,
            !r.poll_error,
            r.stop_after_polls is None,
            r.polls == 0,
            r.submitted_frames == 0,
            r.ended == 0,
            r.log@ == Seq::<SessionCall<S, P>>::empty(),
    {
        ScriptedSession {
            scripted_events: Vec::new(),
            presents: true,
            poll_error: false,
            stop_after_polls: None,
            polls: 0,
            submitted_frames: 0,
            ended: 0,
            log: Ghost(Seq::empty()),
        }
    }
}

impl<S, P> XrSession<S, P> for ScriptedSession<S, P> {
    open spec fn asked(&self) -> Seq<SessionCall<S, P>> {
        self.log@
    }

    open spec fn presents(&self) -> bool {
        self.presents
    }

    fn poll_events(&mut self) -> (r: Result<Vec<XrEvent<P>>, Error>)
        ensures
            r is Err <==> old(self).poll_error,
            r matches Err(e) ==> e@ == plain_error(
                ErrorCode::Internal,
                "the scripted session fails to poll"@,
            ),
            r matches Ok(events) ==> {
                &&& final(self).scripted_events@.len() == 0
                &&& final(self).polls == (if old(self).polls < u64::MAX {
                    (old(self).polls + 1) as u64
                } else {
                    u64::MAX
                })
                &&& events@ == (if old(self).stop_after_polls == Some(final(self).polls) {
                    old(self).scripted_events@.push(
                        XrEvent::StateChanged(SessionState::Stopping),
                    )
                } else {
                    old(self).scripted_events@
                })
            },
            final(self).ended == old(self).ended,
            final(self).submitted_frames == old(self).submitted_frames,
    {
        let r = if self.poll_error {
            Err(
                Error::new(
                    ErrorCode::Internal,
                    "the scripted session fails to poll",
                    TraceId::unattributed(),
                ),
            )
        } else {
            self.polls = self.polls.saturating_add(1);
            let mut events: Vec<XrEvent<P>> = Vec::new();
            core::mem::swap(&mut events, &mut self.scripted_events);
            let last = match self.stop_after_polls {
                Some(n) => n == self.polls,
                None => false,
            };
            if last {
                events.push(XrEvent::StateChanged(SessionState::Stopping));
            }
            Ok(events)
        };
        self.log = Ghost(self.log@.push(SessionCall::Polled(poll_view(r))));
        r
    }

    fn presents_frames(&self) -> (r: bool) {
        self.presents
    }

    fn submit_frame(&mut self, frame: &Frame, panel: &Panel<S, P>) -> (r: Result<(), Error>)
        ensures
            r is Ok,
            final(self).submitted_frames == (if old(self).submitted_frames < u64::MAX {
                (old(self).submitted_frames + 1) as u64
            } else {
                u64::MAX
            }),
            final(self).ended == old(self).ended,
    {
        self.submitted_frames = self.submitted_frames.saturating_add(1);
        let r: Result<(), Error> = Ok(());
        self.log = Ghost(
            self.log@.push(
                SessionCall::Submitted { frame: frame@, panel: panel@, outcome: done_view(r) },
            ),
        );
        r
    }

    fn end(&mut self) -> (r: Result<(), Error>)
        ensures
            r is Ok,
            final(self).ended == (if old(self).ended < u64::MAX {
                (old(self).ended + 1) as u64
            } else {
                u64::MAX
            }),
            final(self).submitted_frames == old(self).submitted_frames,
    {
        self.ended = self.ended.saturating_add(1);
        let r: Result<(), Error> = Ok(());
        self.log = Ghost(self.log@.push(SessionCall::Ended(done_view(r))));
        r
    }
}

/// Remembers the waits that were asked for.
#[derive(Debug)]
pub struct CountingSleeper {
    requested: Vec<u64>,
}

impl CountingSleeper {
    /// No wait yet.
    pub fn new() -> (r: Self)
        ensures
            r.slept() == Seq::<u64>::empty(),
    {
        CountingSleeper { requested: Vec::new() }
    }

    /// The waits so far, in order.
    pub fn requested(&self) -> (r: &[u64])
        ensures
            r@ == self.slept(),
    {
        self.requested.as_slice()
    }
}

impl Sleeper for CountingSleeper {
    closed spec fn slept(&self) -> Seq<u64> {
        self.requested@
    }

    fn sleep_millis(&mut self, millis: u64) {
        self.requested.push(millis);
    }
}

} // verus!
