//! Stand-ins for clocks, identifier sources and log sinks.

use vstd::prelude::*;

use crate::error::{plain_error, DetailView, Error, ErrorCode, ErrorView};
use crate::id::{drawn_view, Id, IdGen, IdScheme, IdView, TraceId};
use crate::log::{LineView, LogRecord, LogSink};
use crate::retry::BackoffWait;
use crate::text::{digits_value, lemma_padded_value, padded_decimal, push_padded};
use crate::time::{Clock, UtcTimestamp};

verus! {

/// A clock that stands still.
#[derive(Debug, Clone, Copy)]
pub struct FixedClock(UtcTimestamp);

impl FixedClock {
    /// Where the clock stands.
    pub closed spec fn stands_at(self) -> UtcTimestamp {
        self.0
    }

    /// A clock that stands at `millis` milliseconds since the epoch.
    pub fn at_millis(millis: i64) -> (r: Self)
        ensures
            r.stands_at().millis() == millis,
    {
        FixedClock(UtcTimestamp::from_millis_since_epoch(millis))
    }
}

impl Clock for FixedClock {
    open spec fn may_say(&self, ts: UtcTimestamp) -> bool {
        ts == self.stands_at()
    }

    fn now_utc(&self) -> (r: UtcTimestamp)
        ensures
            r == self.stands_at(),
    {
        self.0
    }
}

/// A fixed clock says one time only: two readings are the same.
pub proof fn law_fixed_clock_repeats_itself(clock: FixedClock, a: UtcTimestamp, b: UtcTimestamp)
    requires
        clock.may_say(a),
        clock.may_say(b),
    ensures
        a == b,
        a.millis() == clock.stands_at().millis(),
{
}

/// The text of the identifier with number `n`: the prefix, a hyphen, and the
/// number with at least eight digits.
pub open spec fn sequential_text(prefix: Seq<char>, n: nat) -> Seq<char> {
    prefix + "-"@ + padded_decimal(n, 8)
}

/// Identifiers with counted text, in place of random ones.
pub struct SequentialIdGen {
    scheme: IdScheme,
    prefix: String,
    next: u64,
    log: Ghost<Seq<Result<IdView, ErrorView>>>,
}

impl SequentialIdGen {
    /// The text that every identifier starts with.
    pub closed spec fn prefix(&self) -> Seq<char> {
        self.prefix@
    }

    /// The number of the next identifier.
    pub closed spec fn next_number(&self) -> u64 {
        self.next
    }

    /// A source that counts from zero.
    pub fn new(scheme: IdScheme, prefix: &str) -> (r: Self)
        ensures
            r.made_by() == scheme,
            r.prefix() == prefix@,
            r.next_number() == 0,
            r.drawn() == Seq::<Result<IdView, ErrorView>>::empty(),
    {
        SequentialIdGen { scheme, prefix: prefix.to_owned(), next: 0, log: Ghost(Seq::empty()) }
    }
}

impl IdGen for SequentialIdGen {
    closed spec fn made_by(&self) -> IdScheme {
        self.scheme
    }

    closed spec fn drawn(&self) -> Seq<Result<IdView, ErrorView>> {
        self.log@
    }

    fn scheme(&self) -> (r: IdScheme) {
        self.scheme
    }

    fn next_id(&mut self) -> (r: Result<Id, Error>)
        ensures
            r is Ok,
            r->Ok_0@ == (IdView {
                scheme: old(self).made_by(),
                text: sequential_text(old(self).prefix(), old(self).next_number() as nat),
            }),
            final(self).prefix() == old(self).prefix(),
            final(self).next_number() == (if old(self).next_number() < u64::MAX {
                (old(self).next_number() + 1) as u64
            } else {
                u64::MAX
            }),
    {
        let n: u64 = self.next;
        self.next = self.next.saturating_add(1);
        let mut text = self.prefix.clone();
        text.append("-");
        push_padded(&mut text, n);
        assert(text@ =~= sequential_text(old(self).prefix(), n as nat));
        proof {
            reveal_strlit("-");
            assert("-"@.len() == 1);
        }
        let r = Id::new(self.scheme, text.as_str());
        self.log = Ghost(self.log@.push(drawn_view(r)));
        r
    }
}

/// Two counted identifiers of one source differ whenever their numbers differ.
pub proof fn law_sequential_texts_differ(prefix: Seq<char>, a: nat, b: nat)
    requires
        a != b,
    ensures
        sequential_text(prefix, a) != sequential_text(prefix, b),
{
    lemma_padded_value(a, 8);
    lemma_padded_value(b, 8);
    let ta = sequential_text(prefix, a);
    let tb = sequential_text(prefix, b);
    let start = (prefix + "-"@).len() as int;
    if ta == tb {
        assert(ta.skip(start) =~= padded_decimal(a, 8));
        assert(tb.skip(start) =~= padded_decimal(b, 8));
        assert(digits_value(ta.skip(start)) == a);
        assert(digits_value(tb.skip(start)) == b);
    }
}

/// A trace with the given text; empty text is refused.
pub fn trace_id(text: &str) -> (r: Result<TraceId, Error>)
    ensures
        r is Ok <==> text@.len() > 0,
        r matches Ok(t) ==> t@ == Some(IdView { scheme: IdScheme::Ulid, text: text@ }),
        r matches Err(e) ==> e@ == plain_error(
            ErrorCode::InvalidArgument,
            "identifier text must not be empty"@,
        ).with("scheme"@, DetailView::Text("ulid"@)),
{
    match Id::new(IdScheme::Ulid, text) {
        Ok(id) => Ok(TraceId::new(id)),
        Err(e) => Err(e),
    }
}

/// A log sink that keeps every line.
#[derive(Debug)]
pub struct CapturingLogSink {
    lines: Vec<String>,
}

/// The texts of a row of strings.
pub open spec fn texts(lines: Seq<String>) -> Seq<Seq<char>> {
    Seq::new(lines.len(), |i: int| lines[i]@)
}

impl CapturingLogSink {
    /// The lines that were kept.
    pub closed spec fn kept(self) -> Seq<Seq<char>> {
        texts(self.lines@)
    }

    /// A sink without lines.
    pub fn new() -> (r: Self)
        ensures
            r.offered() == Seq::<LineView>::empty(),
    {
        let r = CapturingLogSink { lines: Vec::new() };
        assert(r.offered() =~= Seq::<LineView>::empty());
        r
    }

    /// The lines so far, in order.
    pub fn lines(&self) -> (r: &[String])
        ensures
            texts(r@) == self.kept(),
    {
        self.lines.as_slice()
    }
}

/// Lines that were all taken.
pub open spec fn taken_lines(lines: Seq<Seq<char>>) -> Seq<LineView> {
    Seq::new(lines.len(), |i: int| LineView { line: lines[i], outcome: Ok(()) })
}

/// A sink that keeps every line has taken every line.
pub proof fn law_capturing_sink_takes_every_line(sink: CapturingLogSink, i: int)
    requires
        0 <= i < sink.offered().len(),
    ensures
        sink.offered()[i].outcome is Ok,
{
}

impl LogSink for CapturingLogSink {
    open spec fn offered(&self) -> Seq<LineView> {
        taken_lines(self.kept())
    }

    fn emit(&mut self, record: &LogRecord) -> (r: Result<(), Error>)
        ensures
            r is Ok,
    {
        self.lines.push(record.to_line());
        assert(self.offered() =~= old(self).offered().push(
            LineView { line: record@.line(), outcome: Ok(()) },
        ));
        Ok(())
    }
}

/// Waits not at all, and remembers how long it might have.
#[derive(Debug)]
pub struct RecordedWaits {
    ceilings: Vec<u64>,
}

impl RecordedWaits {
    /// No wait yet.
    pub fn new() -> (r: Self)
        ensures
            r.ceilings() == Seq::<u64>::empty(),
    {
        RecordedWaits { ceilings: Vec::new() }
    }

    /// The ceilings of the waits so far, in order.
    pub fn ceilings_millis(&self) -> (r: &[u64])
        ensures
            r@ == self.ceilings(),
    {
        self.ceilings.as_slice()
    }
}

impl BackoffWait for RecordedWaits {
    closed spec fn ceilings(&self) -> Seq<u64> {
        self.ceilings@
    }

    fn wait_up_to(&mut self, ceiling_millis: u64) {
        self.ceilings.push(ceiling_millis);
    }
}

} // verus!
