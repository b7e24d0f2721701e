//! The nested run and the headless run: what they count, when they end, what they start
//! and what they tell.

use vstd::prelude::*;

use crate::error::{plain_error, DetailView, Error, ErrorCode, ErrorView};
use crate::id::TraceId;
use crate::testing::texts;
use crate::text::{decimal, push_decimal};

pub mod laws;

verus! {

/// A step of a run that can fail.
#[derive(Debug, Clone, Copy, PartialEq, Eq, Structural)]
pub enum RunStep {
    CreateDisplay,
    OpenWindow,
    DispatchClients,
    FlushClients,
    Present,
    BindFramebuffer,
    StartFrame,
    ClearFrame,
    DrawFrame,
    FinishFrame,
    StartClient,
}

impl RunStep {
    /// The error of a step that failed, without its reason.
    pub open spec fn error(self) -> ErrorView {
        match self {
            RunStep::CreateDisplay => plain_error(
                ErrorCode::Internal,
                "could not create the wayland display"@,
            ),
            RunStep::OpenWindow => plain_error(
                ErrorCode::CapabilityUnavailable,
                "could not open a nested window on the host session"@,
            ),
            RunStep::DispatchClients => plain_error(
                ErrorCode::Internal,
                "dispatching wayland clients failed"@,
            ),
            RunStep::FlushClients => plain_error(
                ErrorCode::Internal,
                "flushing wayland clients failed"@,
            ),
            RunStep::Present => plain_error(
                ErrorCode::Internal,
                "presenting the nested frame failed"@,
            ),
            RunStep::BindFramebuffer => plain_error(
                ErrorCode::Internal,
                "could not bind the nested framebuffer"@,
            ),
            RunStep::StartFrame => plain_error(
                ErrorCode::Internal,
                "starting the nested frame failed"@,
            ),
            RunStep::ClearFrame => plain_error(
                ErrorCode::Internal,
                "clearing the nested frame failed"@,
            ),
            RunStep::DrawFrame => plain_error(
                ErrorCode::Internal,
                "drawing the nested frame failed"@,
            ),
            RunStep::FinishFrame => plain_error(
                ErrorCode::Internal,
                "finishing the nested frame failed"@,
            ),
            RunStep::StartClient => plain_error(
                ErrorCode::HostRefused,
                "could not start the verification client"@,
            ),
        }
    }

    fn bare(self) -> (r: Error)
        ensures
            r@ == self.error(),
    {
        let (code, message) = match self {
            RunStep::CreateDisplay => (
                ErrorCode::Internal,
                "could not create the wayland display",
            ),
            RunStep::OpenWindow => (
                ErrorCode::CapabilityUnavailable,
                "could not open a nested window on the host session",
            ),
            RunStep::DispatchClients => (
                ErrorCode::Internal,
                "dispatching wayland clients failed",
            ),
            RunStep::FlushClients => (ErrorCode::Internal, "flushing wayland clients failed"),
            RunStep::Present => (ErrorCode::Internal, "presenting the nested frame failed"),
            RunStep::BindFramebuffer => (
                ErrorCode::Internal,
                "could not bind the nested framebuffer",
            ),
            RunStep::StartFrame => (ErrorCode::Internal, "starting the nested frame failed"),
            RunStep::ClearFrame => (ErrorCode::Internal, "clearing the nested frame failed"),
            RunStep::DrawFrame => (ErrorCode::Internal, "drawing the nested frame failed"),
            RunStep::FinishFrame => (ErrorCode::Internal, "finishing the nested frame failed"),
            RunStep::StartClient => (
                ErrorCode::HostRefused,
                "could not start the verification client",
            ),
        };
        Error::new(code, message, TraceId::unattributed())
    }

    /// The error of a step of the nested run: it shows the reason.
    pub fn failed_because(self, reason: &str) -> (r: Error)
        ensures
            r@ == self.error().with("reason"@, DetailView::Text(reason@)),
    {
        self.bare().with_detail("reason", reason)
    }

    /// The error of a step of the headless run: it keeps the reason as its cause.
    pub fn failed_with(self, cause: &str) -> (r: Error)
        ensures
            r@ == self.error().because(cause@),
    {
        self.bare().caused_by(cause)
    }
}

/// The error of a nested run's client that did not start.
pub fn nested_client_not_started(program: &str, reason: &str) -> (r: Error)
    ensures
        r@ == RunStep::StartClient.error().with("reason"@, DetailView::Text(reason@)).with(
            "program"@,
            DetailView::Text(program@),
        ),
{
    RunStep::StartClient.failed_because(reason).with_detail("program", program)
}

/// The error of a headless run's client that did not start.
pub fn headless_client_not_started(program: &str, cause: &str) -> (r: Error)
    ensures
        r@ == RunStep::StartClient.error().with(
            "program"@,
            DetailView::Text(program@),
        ).because(cause@),
{
    RunStep::StartClient.bare().with_detail("program", program).caused_by(cause)
}

/// The error of a socket whose directory is not known.
pub fn runtime_dir_missing() -> (r: Error)
    ensures
        r@ == plain_error(
            ErrorCode::CapabilityUnavailable,
            "XDG_RUNTIME_DIR is not set, so the socket has no well-known path"@,
        ),
{
    Error::new(
        ErrorCode::CapabilityUnavailable,
        "XDG_RUNTIME_DIR is not set, so the socket has no well-known path",
        TraceId::unattributed(),
    )
}

/// A client to start.
#[derive(Debug)]
pub struct ClientCommand {
    pub program: String,
    pub args: Vec<String>,
    /// Variables that are set for it.
    pub set_env: Vec<(String, String)>,
    /// A variable that is taken away from it.
    pub removed_env: String,
}

/// The client to start against a socket: the first word is the program, the others its
/// arguments; without words there is none. It is to find this socket, and no X display.
pub fn client_command(argv: &[String], socket: &str) -> (r: Option<ClientCommand>)
    ensures
        r is Some <==> argv@.len() > 0,
        r matches Some(c) ==> {
            &&& c.program@ == argv@[0]@
            &&& texts(c.args@) == texts(argv@).skip(1)
            &&& c.set_env@.len() == 2
            &&& c.set_env@[0].0@ == "WAYLAND_DISPLAY"@ && c.set_env@[0].1@ == socket@
            &&& c.set_env@[1].0@ == "XDG_SESSION_TYPE"@ && c.set_env@[1].1@ == "wayland"@
            &&& c.removed_env@ == "DISPLAY"@
        },
{
    if argv.len() == 0 {
        return None;
    }
    let mut args: Vec<String> = Vec::new();
    let mut i: usize = 1;
    while i < argv.len()
        invariant
            1 <= i <= argv.len(),
            args@.len() == i - 1,
            forall|k: int| 0 <= k < args@.len() ==> (#[trigger] args@[k])@ == argv@[k + 1]@,
        decreases argv.len() - i,
    {
        args.push(argv[i].clone());
        i = i + 1;
    }
    assert(texts(args@) =~= texts(argv@).skip(1));
    let mut set_env: Vec<(String, String)> = Vec::new();
    set_env.push(("WAYLAND_DISPLAY".to_owned(), socket.to_owned()));
    set_env.push(("XDG_SESSION_TYPE".to_owned(), "wayland".to_owned()));
    Some(
        ClientCommand {
            program: argv[0].clone(),
            args,
            set_env,
            removed_env: "DISPLAY".to_owned(),
        },
    )
}

/// The time that a frame callback carries: milliseconds that start over before the
/// largest number.
pub fn frame_time_ms(elapsed_millis: u128) -> (r: u32)
    ensures
        r == elapsed_millis % (u32::MAX as u128),
{
    (elapsed_millis % 0xffff_ffff) as u32
}

/// What a nested run does at the top of its loop.
#[derive(Debug, Clone, Copy, PartialEq, Eq, Structural)]
pub enum NestedStep {
    /// It was stopped.
    Stopped,
    /// A signal interrupted it.
    Interrupted,
    /// Its time is over.
    TimeLimit,
    /// It takes what the host has for it, and goes on.
    Proceed,
}

impl NestedStep {
    /// What is said of an end.
    pub fn message(self) -> (r: Option<&'static str>)
        ensures
            match self {
                NestedStep::Interrupted => r is Some && r->0@
                    == "interrupted; letting go of the socket"@,
                NestedStep::TimeLimit => r is Some && r->0@
                    == "the nested run reached its time limit"@,
                _ => r is None,
            },
    {
        match self {
            NestedStep::Interrupted => Some("interrupted; letting go of the socket"),
            NestedStep::TimeLimit => Some("the nested run reached its time limit"),
            NestedStep::Stopped => None,
            NestedStep::Proceed => None,
        }
    }
}

/// Decides at the top of the loop of a nested run.
pub fn nested_step(
    running: bool,
    interrupted: bool,
    elapsed_millis: u128,
    limit_millis: Option<u128>,
) -> (r: NestedStep)
    ensures
        r == (if !running {
            NestedStep::Stopped
        } else if interrupted {
            NestedStep::Interrupted
        } else if limit_millis is Some && elapsed_millis >= limit_millis->0 {
            NestedStep::TimeLimit
        } else {
            NestedStep::Proceed
        }),
{
    if !running {
        return NestedStep::Stopped;
    }
    if interrupted {
        return NestedStep::Interrupted;
    }
    let over = match limit_millis {
        Some(limit) => elapsed_millis >= limit,
        None => false,
    };
    if over {
        NestedStep::TimeLimit
    } else {
        NestedStep::Proceed
    }
}

/// Something that a run counts.
#[derive(Debug, Clone, Copy, PartialEq, Eq, Structural)]
pub enum RunEvent {
    /// A frame, or a round, begins.
    RoundBegins,
    /// A client was let in.
    ClientAccepted,
    /// A round ends with so many windows.
    RoundEnds { windows: usize },
}

/// What a run has counted.
#[derive(Debug, Clone, Copy, PartialEq, Eq, Structural)]
pub struct RunTally {
    pub rounds: u64,
    pub clients_accepted: usize,
    pub toplevels_seen: usize,
}

/// The larger of two counts.
pub open spec fn larger(a: usize, b: usize) -> usize {
    if a >= b {
        a
    } else {
        b
    }
}

/// How many rounds begin.
pub open spec fn rounds_in(events: Seq<RunEvent>) -> nat
    decreases events.len(),
{
    if events.len() == 0 {
        0
    } else {
        rounds_in(events.drop_last()) + if events.last() is RoundBegins {
            1nat
        } else {
            0nat
        }
    }
}

/// How many clients are let in.
pub open spec fn clients_in(events: Seq<RunEvent>) -> nat
    decreases events.len(),
{
    if events.len() == 0 {
        0
    } else {
        clients_in(events.drop_last()) + if events.last() is ClientAccepted {
            1nat
        } else {
            0nat
        }
    }
}

/// The most windows at the end of a round.
pub open spec fn most_windows(events: Seq<RunEvent>) -> usize
    decreases events.len(),
{
    if events.len() == 0 {
        0
    } else {
        match events.last() {
            RunEvent::RoundEnds { windows } => larger(most_windows(events.drop_last()), windows),
            _ => most_windows(events.drop_last()),
        }
    }
}

/// No round ends with more windows than the most, and where there are any, some round
/// ends with the most.
pub proof fn law_most_windows(events: Seq<RunEvent>)
    ensures
        forall|i: int|
            0 <= i < events.len() && (#[trigger] events[i]) is RoundEnds ==> events[i]->windows
                <= most_windows(events),
        most_windows(events) > 0 ==> exists|i: int|
            0 <= i < events.len() && #[trigger] events[i] == (RunEvent::RoundEnds {
                windows: most_windows(events),
            }),
    decreases events.len(),
{
    if events.len() > 0 {
        let rest = events.drop_last();
        law_most_windows(rest);
        assert forall|i: int| 0 <= i < events.len() && (
        #[trigger] events[i]) is RoundEnds implies events[i]->windows <= most_windows(events) by {
            if i < rest.len() {
                assert(rest[i] == events[i]);
            }
        }
        if most_windows(events) > 0 {
            if most_windows(events) == most_windows(rest) {
                let i = choose|i: int|
                    0 <= i < rest.len() && #[trigger] rest[i] == (RunEvent::RoundEnds {
                        windows: most_windows(rest),
                    });
                assert(events[i] == rest[i]);
            } else {
                assert(events[events.len() - 1] == (RunEvent::RoundEnds {
                    windows: most_windows(events),
                }));
            }
        }
    }
}

impl RunTally {
    /// Nothing counted.
    pub fn new() -> (r: Self)
        ensures
            r == (RunTally { rounds: 0, clients_accepted: 0, toplevels_seen: 0 }),
            r.counts(Seq::empty()),
    {
        RunTally { rounds: 0, clients_accepted: 0, toplevels_seen: 0 }
    }

    /// Whether this is what a row of events adds up to.
    pub open spec fn counts(self, events: Seq<RunEvent>) -> bool {
        &&& self.rounds == rounds_in(events)
        &&& self.clients_accepted == clients_in(events)
        &&& self.toplevels_seen == most_windows(events)
    }

    /// The tally after an event.
    pub open spec fn after(self, event: RunEvent) -> Self {
        match event {
            RunEvent::RoundBegins => RunTally { rounds: (self.rounds + 1) as u64, ..self },
            RunEvent::ClientAccepted => RunTally {
                clients_accepted: (self.clients_accepted + 1) as usize,
                ..self
            },
            RunEvent::RoundEnds { windows } => RunTally {
                toplevels_seen: larger(self.toplevels_seen, windows),
                ..self
            },
        }
    }

    /// Counts an event.
    pub fn note(&mut self, event: RunEvent)
        requires
            event is RoundBegins ==> old(self).rounds < u64::MAX,
            event is ClientAccepted ==> old(self).clients_accepted < usize::MAX,
        ensures
            *final(self) == old(self).after(event),
    {
        match event {
            RunEvent::RoundBegins => {
                self.rounds = self.rounds + 1;
            },
            RunEvent::ClientAccepted => {
                self.clients_accepted = self.clients_accepted + 1;
            },
            RunEvent::RoundEnds { windows } => {
                if windows > self.toplevels_seen {
                    self.toplevels_seen = windows;
                }
            },
        }
    }
}

/// Counting one event after another adds them all up.
pub proof fn law_tally_adds_up(tally: RunTally, events: Seq<RunEvent>, event: RunEvent)
    requires
        tally.counts(events),
        event is RoundBegins ==> tally.rounds < u64::MAX,
        event is ClientAccepted ==> tally.clients_accepted < usize::MAX,
    ensures
        tally.after(event).counts(events.push(event)),
{
    assert(events.push(event).drop_last() =~= events);
}

/// What is said of a socket that was bound.
pub fn listening_text(socket: &str) -> (r: String)
    ensures
        r@ == "schorl is listening on "@ + socket@,
{
    let mut out = "schorl is listening on ".to_owned();
    out.append(socket);
    out
}

/// What is said of a client that was let in.
pub fn accepted_text(number: usize) -> (r: String)
    ensures
        r@ == "accepted client #"@ + decimal(number as nat),
{
    let mut out = "accepted client #".to_owned();
    push_decimal(&mut out, number as u64);
    out
}

/// What is said of a client that was not let in.
pub fn not_inserted_text(reason: &str) -> (r: String)
    ensures
        r@ == "could not insert a client: "@ + reason@,
{
    let mut out = "could not insert a client: ".to_owned();
    out.append(reason);
    out
}

/// What is said of a client that was started.
pub fn started_text(program: &str, socket: &str) -> (r: String)
    ensures
        r@ == "started "@ + program@ + " against "@ + socket@,
{
    let mut out = "started ".to_owned();
    out.append(program);
    out.append(" against ");
    out.append(socket);
    assert(out@ =~= "started "@ + program@ + " against "@ + socket@);
    out
}

/// How a nested run went.
#[derive(Debug, PartialEq, Eq)]
pub struct NestedOutcome {
    pub socket: String,
    pub frames: u64,
    pub clients_accepted: usize,
    pub toplevels_seen: usize,
    pub mapped_windows: usize,
}

/// What is printed of a nested run. The socket's name stands as it is.
pub open spec fn nested_line(
    socket: Seq<char>,
    frames: nat,
    clients: nat,
    toplevels: nat,
    mapped: nat,
) -> Seq<char> {
    "{\"socket\":\""@ + socket + "\",\"frames\":"@ + decimal(frames) + ",\"clients_accepted\":"@
        + decimal(clients) + ",\"toplevels_seen\":"@ + decimal(toplevels)
        + ",\"mapped_windows\":"@ + decimal(mapped) + "}"@
}

impl NestedOutcome {
    /// What a run with the given tally comes to.
    pub fn of(socket: &str, tally: RunTally, mapped_windows: usize) -> (r: Self)
        ensures
            r.socket@ == socket@,
            r.frames == tally.rounds,
            r.clients_accepted == tally.clients_accepted,
            r.toplevels_seen == tally.toplevels_seen,
            r.mapped_windows == mapped_windows,
    {
        NestedOutcome {
            socket: socket.to_owned(),
            frames: tally.rounds,
            clients_accepted: tally.clients_accepted,
            toplevels_seen: tally.toplevels_seen,
            mapped_windows,
        }
    }

    /// What is printed of the run.
    pub fn to_line(&self) -> (r: String)
        ensures
            r@ == nested_line(
                self.socket@,
                self.frames as nat,
                self.clients_accepted as nat,
                self.toplevels_seen as nat,
                self.mapped_windows as nat,
            ),
    {
        let mut out = "{\"socket\":\"".to_owned();
        out.append(self.socket.as_str());
        out.append("\",\"frames\":");
        push_decimal(&mut out, self.frames);
        out.append(",\"clients_accepted\":");
        push_decimal(&mut out, self.clients_accepted as u64);
        out.append(",\"toplevels_seen\":");
        push_decimal(&mut out, self.toplevels_seen as u64);
        out.append(",\"mapped_windows\":");
        push_decimal(&mut out, self.mapped_windows as u64);
        out.append("}");
        assert(out@ =~= nested_line(
            self.socket@,
            self.frames as nat,
            self.clients_accepted as nat,
            self.toplevels_seen as nat,
            self.mapped_windows as nat,
        ));
        out
    }
}

/// How a headless run is done.
#[derive(Debug)]
pub struct HeadlessOptions {
    /// The client to start, with its arguments.
    pub client: Vec<String>,
    /// How long the run takes at most.
    pub run_for_millis: u64,
    /// Whether it ends once a window shows something.
    pub stop_once_mapped: bool,
    /// The wait between two rounds.
    pub tick_millis: u64,
}

impl Default for HeadlessOptions {
    fn default() -> (r: Self)
        ensures
            r.client@.len() == 0,
            r.run_for_millis == 10_000,
            r.stop_once_mapped,
            r.tick_millis == 4,
    {
        HeadlessOptions {
            client: Vec::new(),
            run_for_millis: 10_000,
            stop_once_mapped: true,
            tick_millis: 4,
        }
    }
}

/// How a headless run went.
#[derive(Debug, PartialEq, Eq)]
pub struct HeadlessOutcome {
    pub socket: String,
    pub clients_accepted: usize,
    pub toplevels_seen: usize,
    pub mapped_windows: usize,
    pub rounds: u64,
}

impl HeadlessOutcome {
    /// What a run with the given tally comes to.
    pub fn of(socket: &str, tally: RunTally, mapped_windows: usize) -> (r: Self)
        ensures
            r.socket@ == socket@,
            r.rounds == tally.rounds,
            r.clients_accepted == tally.clients_accepted,
            r.toplevels_seen == tally.toplevels_seen,
            r.mapped_windows == mapped_windows,
    {
        HeadlessOutcome {
            socket: socket.to_owned(),
            clients_accepted: tally.clients_accepted,
            toplevels_seen: tally.toplevels_seen,
            mapped_windows,
            rounds: tally.rounds,
        }
    }

    /// Whether a client connected, asked for a window and showed something in it.
    pub fn a_client_actually_showed_a_window(&self) -> (r: bool)
        ensures
            r == (self.clients_accepted > 0 && self.toplevels_seen > 0 && self.mapped_windows > 0),
    {
        self.clients_accepted > 0 && self.toplevels_seen > 0 && self.mapped_windows > 0
    }
}

/// Whether another round of a headless run begins.
pub fn headless_round_begins(elapsed_millis: u128, options: &HeadlessOptions) -> (r: bool)
    ensures
        r == (elapsed_millis < options.run_for_millis),
{
    elapsed_millis < options.run_for_millis as u128
}

/// Whether a headless run ends after a round.
pub fn headless_run_ends(options: &HeadlessOptions, mapped_windows: usize) -> (r: bool)
    ensures
        r == (options.stop_once_mapped && mapped_windows > 0),
{
    options.stop_once_mapped && mapped_windows > 0
}

/// What a pump does after a turn.
#[derive(Debug, Clone, Copy, PartialEq, Eq, Structural)]
pub enum PumpTurn {
    Ready,
    TimedOut,
    Sleep,
}

/// Decides after a turn of a pump: what was waited for ends it even when its time is
/// over.
pub fn pump_turn(ready: bool, elapsed_nanos: u128, limit_nanos: u128) -> (r: PumpTurn)
    ensures
        r == (if ready {
            PumpTurn::Ready
        } else if elapsed_nanos >= limit_nanos {
            PumpTurn::TimedOut
        } else {
            PumpTurn::Sleep
        }),
{
    if ready {
        PumpTurn::Ready
    } else if elapsed_nanos >= limit_nanos {
        PumpTurn::TimedOut
    } else {
        PumpTurn::Sleep
    }
}

} // verus!
