//! The journal: every line under one trace.

use vstd::prelude::*;

use crate::error::{done_view, plain_error, DetailView, Error, ErrorCode, ErrorView};
use crate::id::{drawn_view, Id, IdGen, IdScheme, IdView, TraceId};
use crate::log::{Level, LineView, LogRecord, LogSink, LogView};
use crate::time::{Clock, UtcTimestamp};

verus! {

/// Whether a character is a hexadecimal digit in lower case.
pub open spec fn lower_hex(c: char) -> bool {
    ('0' <= c && c <= '9') || ('a' <= c && c <= 'f')
}

/// The shape of the text of a version seven UUID: hexadecimal digits in groups of
/// eight, four, four, four and twelve, with hyphens between them; the third group
/// begins with the version, the fourth with the variant.
pub open spec fn uuid_v7_shape(text: Seq<char>) -> bool {
    &&& text.len() == 36
    &&& text[8] == '-' && text[13] == '-' && text[18] == '-' && text[23] == '-'
    &&& forall|i: int|
        0 <= i < 36 && i != 8 && i != 13 && i != 18 && i != 23 ==> lower_hex(#[trigger] text[i])
    &&& text[14] == '7'
    &&& (text[19] == '8' || text[19] == '9' || text[19] == 'a' || text[19] == 'b')
}

/// `uuid::Uuid::now_v7`, written out by its `Display`. The text rests on the clock and on
/// chance; of every text it is claimed that it has the shape of a version seven UUID. That
/// two texts differ is not claimed. Where the machine's clock stands before 1970, or where it
/// has no random bytes to give, the call panics.
#[verifier::external_body]
fn fresh_uuid_v7() -> (r: String)
    ensures
        uuid_v7_shape(r@),
{
    uuid::Uuid::now_v7().to_string()
}

/// Identifiers that are version seven UUIDs.
pub struct Uuidv7IdGen {
    log: Ghost<Seq<Result<IdView, ErrorView>>>,
}

impl Uuidv7IdGen {
    /// A source that made nothing yet.
    pub fn new() -> (r: Self)
        ensures
            r.drawn() == Seq::<Result<IdView, ErrorView>>::empty(),
    {
        Uuidv7IdGen { log: Ghost(Seq::empty()) }
    }

    /// The identifier with the given text; empty text is refused.
    pub fn id_of(text: &str) -> (r: Result<Id, Error>)
        ensures
            r is Ok <==> text@.len() > 0,
            r matches Ok(id) ==> id@ == (IdView { scheme: IdScheme::Uuidv7, text: text@ }),
            r matches Err(e) ==> e@ == plain_error(
                ErrorCode::InvalidArgument,
                "identifier text must not be empty"@,
            ).with("scheme"@, DetailView::Text(IdScheme::Uuidv7.name())),
    {
        Id::new(IdScheme::Uuidv7, text)
    }
}

impl IdGen for Uuidv7IdGen {
    open spec fn made_by(&self) -> IdScheme {
        IdScheme::Uuidv7
    }

    closed spec fn drawn(&self) -> Seq<Result<IdView, ErrorView>> {
        self.log@
    }

    fn scheme(&self) -> (r: IdScheme) {
        IdScheme::Uuidv7
    }

    fn next_id(&mut self) -> (r: Result<Id, Error>)
        ensures
            r is Ok,
            uuid_v7_shape(r->Ok_0@.text),
    {
        let r = Uuidv7IdGen::id_of(fresh_uuid_v7().as_str());
        self.log = Ghost(self.log@.push(drawn_view(r)));
        r
    }
}

/// Writes lines under one trace.
pub struct Journal<C: Clock, L: LogSink> {
    clock: C,
    sink: L,
    trace_id: TraceId,
}

/// Whether exactly one line was handed over, with the given level, trace and message, and
/// with a time that the clock may have said. What the sink answered is the last outcome.
pub open spec fn wrote<C: Clock>(
    clock: C,
    before: Seq<LineView>,
    after: Seq<LineView>,
    level: Level,
    trace_id: Option<IdView>,
    msg: Seq<char>,
) -> bool {
    exists|ts: UtcTimestamp|
        {
            &&& #[trigger] clock.may_say(ts)
            &&& after == before.push(
                LineView {
                    line: journal_entry(ts, level, trace_id, msg).line(),
                    outcome: after.last().outcome,
                },
            )
        }
}

/// One record of a journal.
pub open spec fn journal_entry(
    ts: UtcTimestamp,
    level: Level,
    trace_id: Option<IdView>,
    msg: Seq<char>,
) -> LogView {
    LogView { ts, level, trace_id, msg }
}

/// What is said of something that failed: what it was, and the error's message.
pub open spec fn failure_text(what: Seq<char>, message: Seq<char>) -> Seq<char> {
    what + ": "@ + message
}

impl<C: Clock, L: LogSink> Journal<C, L> {
    /// What says the time of every line.
    pub closed spec fn clock(&self) -> C {
        self.clock
    }

    /// Where the lines go.
    pub closed spec fn store(&self) -> L {
        self.sink
    }

    /// The lines that were handed over so far, each with the sink's answer.
    pub open spec fn lines(&self) -> Seq<LineView> {
        self.store().offered()
    }

    /// The trace of every line.
    pub closed spec fn trace(&self) -> Option<IdView> {
        self.trace_id@
    }

    /// A journal under the given trace.
    pub fn new(clock: C, sink: L, trace_id: TraceId) -> (r: Self)
        ensures
            r.trace() == trace_id@,
            r.clock() == clock,
            r.store() == sink,
    {
        Journal { clock, sink, trace_id }
    }

    /// A journal under a trace of its own; it fails where no identifier can be drawn.
    pub fn with_new_trace<I: IdGen>(clock: C, sink: L, ids: &mut I) -> (r: Result<Self, Error>)
        ensures
            final(ids).drawn().len() == old(ids).drawn().len() + 1,
            final(ids).drawn().drop_last() == old(ids).drawn(),
            match final(ids).drawn().last() {
                Ok(id) => {
                    &&& r is Ok
                    &&& r->Ok_0.trace() == Some(id)
                    &&& r->Ok_0.clock() == clock
                    &&& r->Ok_0.store() == sink
                },
                Err(e) => r is Err && r->Err_0@ == e,
            },
    {
        let drawn = ids.next_id();
        assert(ids.drawn().drop_last() =~= old(ids).drawn());
        match drawn {
            Ok(id) => Ok(Journal::new(clock, sink, TraceId::new(id))),
            Err(e) => Err(e),
        }
    }

    /// The trace of every line.
    pub fn trace_id(&self) -> (r: &TraceId)
        ensures
            r@ == self.trace(),
    {
        &self.trace_id
    }

    /// Where the lines go.
    pub fn sink(&self) -> (r: &L)
        ensures
            *r == self.store(),
    {
        &self.sink
    }

    /// Writes one line.
    pub fn emit(&mut self, level: Level, msg: &str) -> (r: Result<(), Error>)
        ensures
            final(self).trace() == old(self).trace(),
            final(self).clock() == old(self).clock(),
            wrote(
                old(self).clock(),
                old(self).lines(),
                final(self).lines(),
                level,
                old(self).trace(),
                msg@,
            ),
            done_view(r) == final(self).lines().last().outcome,
    {
        let ts = self.clock.now_utc();
        let record = LogRecord::new(ts, level, self.trace_id.clone(), msg);
        assert(record@ == journal_entry(ts, level, self.trace(), msg@));
        assert(self.clock().may_say(ts));
        self.sink.emit(&record)
    }

    /// Writes one line for the record.
    pub fn info(&mut self, msg: &str) -> (r: Result<(), Error>)
        ensures
            final(self).trace() == old(self).trace(),
            final(self).clock() == old(self).clock(),
            wrote(
                old(self).clock(),
                old(self).lines(),
                final(self).lines(),
                Level::Info,
                old(self).trace(),
                msg@,
            ),
            done_view(r) == final(self).lines().last().outcome,
    {
        self.emit(Level::Info, msg)
    }

    /// Writes one line of warning.
    pub fn warn(&mut self, msg: &str) -> (r: Result<(), Error>)
        ensures
            final(self).trace() == old(self).trace(),
            final(self).clock() == old(self).clock(),
            wrote(
                old(self).clock(),
                old(self).lines(),
                final(self).lines(),
                Level::Warn,
                old(self).trace(),
                msg@,
            ),
            done_view(r) == final(self).lines().last().outcome,
    {
        self.emit(Level::Warn, msg)
    }

    /// Writes one line of failure.
    pub fn error(&mut self, msg: &str) -> (r: Result<(), Error>)
        ensures
            final(self).trace() == old(self).trace(),
            final(self).clock() == old(self).clock(),
            wrote(
                old(self).clock(),
                old(self).lines(),
                final(self).lines(),
                Level::Error,
                old(self).trace(),
                msg@,
            ),
            done_view(r) == final(self).lines().last().outcome,
    {
        self.emit(Level::Error, msg)
    }

    /// Writes what failed and why. The cause behind the error is not written.
    pub fn note_failure(&mut self, what: &str, cause: &Error) -> (r: Result<(), Error>)
        ensures
            final(self).trace() == old(self).trace(),
            final(self).clock() == old(self).clock(),
            wrote(
                old(self).clock(),
                old(self).lines(),
                final(self).lines(),
                Level::Error,
                old(self).trace(),
                failure_text(what@, cause@.message),
            ),
            done_view(r) == final(self).lines().last().outcome,
    {
        let mut msg = what.to_owned();
        msg.append(": ");
        msg.append(cause.message());
        assert(msg@ =~= failure_text(what@, cause@.message));
        self.error(msg.as_str())
    }
}

} // verus!
