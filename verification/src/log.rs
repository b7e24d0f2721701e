//! Log records: one JSON line each, always with the same four fields.

use vstd::prelude::*;

use crate::error::{done_view, trace_json, trace_to_json, Error, ErrorView};
use crate::id::{IdView, TraceId};
use crate::json::{
    is_one_line, json_text, law_rendering_is_one_line, JsonFields, JsonValue, JsonView,
};
use crate::time::UtcTimestamp;

verus! {

/// How serious a record is.
#[derive(Debug, Clone, Copy, PartialEq, Eq, PartialOrd, Ord, Hash, Structural)]
pub enum Level {
    Debug,
    Info,
    Warn,
    Error,
}

impl Level {
    /// The spelling of the level.
    pub open spec fn name(self) -> Seq<char> {
        match self {
            Level::Debug => "debug"@,
            Level::Info => "info"@,
            Level::Warn => "warn"@,
            Level::Error => "error"@,
        }
    }

    /// The spelling of the level.
    pub fn as_str(self) -> (r: &'static str)
        ensures
            r@ == self.name(),
    {
        match self {
            Level::Debug => "debug",
            Level::Info => "info",
            Level::Warn => "warn",
            Level::Error => "error",
        }
    }
}

/// What a [`LogRecord`] holds.
pub struct LogView {
    pub ts: UtcTimestamp,
    pub level: Level,
    pub trace_id: Option<IdView>,
    pub msg: Seq<char>,
}

impl LogView {
    /// The four fields of a record, in order.
    pub open spec fn fields(self) -> Seq<(Seq<char>, JsonView)> {
        seq![
            ("ts"@, JsonView::Int(self.ts.millis() as int)),
            ("level"@, JsonView::Text(self.level.name())),
            ("trace_id"@, trace_json(self.trace_id)),
            ("msg"@, JsonView::Text(self.msg)),
        ]
    }

    /// The line of a record.
    pub open spec fn line(self) -> Seq<char> {
        json_text(JsonView::Object(self.fields()))
    }
}

/// Every record is one line, whatever its message holds.
pub proof fn law_a_record_is_one_line(record: LogView)
    ensures
        is_one_line(record.line()),
{
    law_rendering_is_one_line(JsonView::Object(record.fields()));
}

/// One log record.
#[derive(Debug)]
pub struct LogRecord {
    ts: UtcTimestamp,
    level: Level,
    trace_id: TraceId,
    msg: String,
}

impl View for LogRecord {
    type V = LogView;

    closed spec fn view(&self) -> LogView {
        LogView { ts: self.ts, level: self.level, trace_id: self.trace_id@, msg: self.msg@ }
    }
}

impl LogRecord {
    /// A record of the given parts.
    pub fn new(ts: UtcTimestamp, level: Level, trace_id: TraceId, msg: &str) -> (r: Self)
        ensures
            r@ == (LogView { ts, level, trace_id: trace_id@, msg: msg@ }),
    {
        LogRecord { ts, level, trace_id, msg: msg.to_owned() }
    }

    /// When it was written.
    pub fn ts(&self) -> (r: UtcTimestamp)
        ensures
            r == self@.ts,
    {
        self.ts
    }

    /// How serious it is.
    pub fn level(&self) -> (r: Level)
        ensures
            r == self@.level,
    {
        self.level
    }

    /// The trace it belongs to.
    pub fn trace_id(&self) -> (r: &TraceId)
        ensures
            r@ == self@.trace_id,
    {
        &self.trace_id
    }

    /// The message.
    pub fn msg(&self) -> (r: &str)
        ensures
            r@ == self@.msg,
    {
        self.msg.as_str()
    }

    /// The four fields: ts, level, trace_id, msg.
    pub fn to_json(&self) -> (r: JsonValue)
        ensures
            r@ == JsonView::Object(self@.fields()),
    {
        let fields = JsonFields::new().with("ts", JsonValue::number(self.ts.millis_since_epoch())).with(
            "level",
            JsonValue::text(self.level.as_str()),
        ).with("trace_id", trace_to_json(&self.trace_id)).with(
            "msg",
            JsonValue::text(self.msg.as_str()),
        );
        assert(fields@ =~= self@.fields());
        fields.into_object()
    }

    /// The record on one line.
    pub fn to_line(&self) -> (r: String)
        ensures
            r@ == self@.line(),
    {
        self.to_json().render()
    }
}

/// A line that was handed to a sink, and what the sink answered.
pub struct LineView {
    pub line: Seq<char>,
    pub outcome: Result<(), ErrorView>,
}

/// Where records go.
pub trait LogSink {
    /// The lines that were handed over so far, in order, each with its answer.
    open spec fn offered(&self) -> Seq<LineView> {
        arbitrary()
    }

    fn emit(&mut self, record: &LogRecord) -> (r: Result<(), Error>)
        ensures
            final(self).offered() == old(self).offered().push(
                LineView { line: record@.line(), outcome: done_view(r) },
            ),
    ;
}

} // verus!
